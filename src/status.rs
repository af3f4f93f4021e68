use vstd::prelude::*;

verus! {

/// The closed set of states a managed server can be in.
#[derive(Debug, Copy, Clone, PartialEq, Eq, Structural)]
pub enum Status {
    Idle,
    Starting,
    Running,
    Stopping,
    BackingUp,
    Restoring,
    Modding,
    Packaging,
}

/// The chat-friendly label of each status.
pub open spec fn status_label(status: Status) -> Seq<char> {
    match status {
        Status::Idle => ":zzz: **Idle**"@,
        Status::Running => ":white_check_mark: **Running**"@,
        Status::Stopping => ":octagonal_sign: **Stopping**"@,
        Status::Starting => ":stopwatch: **Starting**"@,
        Status::BackingUp => ":floppy_disk: **Creating backup**"@,
        Status::Restoring => ":leftwards_arrow_with_hook: **Restoring backup**"@,
        Status::Modding => ":stopwatch: **Modding**"@,
        Status::Packaging => ":package: **Packaging**"@,
    }
}

/// Renders a status as a short decorated label.
pub fn pretty_status(status: Status) -> (r: String)
    ensures
        r@ == status_label(status),
{
    match status {
        Status::Idle => ":zzz: **Idle**".to_owned(),
        Status::Running => ":white_check_mark: **Running**".to_owned(),
        Status::Stopping => ":octagonal_sign: **Stopping**".to_owned(),
        Status::Starting => ":stopwatch: **Starting**".to_owned(),
        Status::BackingUp => ":floppy_disk: **Creating backup**".to_owned(),
        Status::Restoring => ":leftwards_arrow_with_hook: **Restoring backup**".to_owned(),
        Status::Modding => ":stopwatch: **Modding**".to_owned(),
        Status::Packaging => ":package: **Packaging**".to_owned(),
    }
}

} // verus!
