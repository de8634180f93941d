use vstd::prelude::*;
use colored::Colorize;

verus! {

/// The escape sequence that ends a colored span.
pub open spec fn reset_sequence() -> Seq<char> {
    seq!['\x1B', '[', '0', 'm']
}

/// `r` is `name` as a terminal shows it: unchanged, or longer and closed by the
/// reset sequence.
pub open spec fn painted(r: Seq<char>, name: Seq<char>) -> bool {
    r == name || (r.len() > name.len() + reset_sequence().len() && r.subrange(
        r.len() - reset_sequence().len(),
        r.len() as int,
    ) == reset_sequence())
}

/// Relies on `users::get_user_by_uid`: the name of the user with this id in
/// the system's user database, if there is one.
#[verifier::external_body]
pub(crate) fn user_name_of(uid: u32) -> (r: Option<String>) {
    match users::get_user_by_uid(uid) {
        Some(u) => Some(u.name().to_string_lossy().into_owned()),
        None => None,
    }
}

/// Relies on `users::get_group_by_gid`: the name of the group with this id in
/// the system's group database, if there is one.
#[verifier::external_body]
pub(crate) fn group_name_of(gid: u32) -> (r: Option<String>) {
    match users::get_group_by_gid(gid) {
        Some(g) => Some(g.name().to_string_lossy().into_owned()),
        None => None,
    }
}

/// Relies on chrono's `DateTime::from_timestamp`, `with_timezone(&Local)` and
/// `format("%b %d %H:%M")`: a time in the machine's time zone, as a three-letter
/// month and two-digit day, hour and minute; none where chrono cannot represent
/// the instant.
#[verifier::external_body]
pub(crate) fn local_timestamp(secs: i64) -> (r: Option<String>)
    ensures
        r matches Some(t) ==> t@.len() == 12,
{
    match chrono::DateTime::from_timestamp(secs, 0) {
        Some(dt) => Some(dt.with_timezone(&chrono::Local).format("%b %d %H:%M").to_string()),
        None => None,
    }
}

/// Relies on colored's `yellow().bold().on_black()` and its `Display`: the
/// name in bold yellow on black, or unchanged where colored's own settings turn
/// colors off.
#[verifier::external_body]
pub(crate) fn paint_device(name: &str) -> (r: String)
    ensures
        painted(r@, name@),
{
    format!("{}", name.yellow().bold().on_black())
}

/// Relies on colored's `blue().bold()` and its `Display`: the name in bold
/// blue, or unchanged where colored's own settings turn colors off.
#[verifier::external_body]
pub(crate) fn paint_dir(name: &str) -> (r: String)
    ensures
        painted(r@, name@),
{
    format!("{}", name.blue().bold())
}

} // verus!
