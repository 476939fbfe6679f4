use vstd::prelude::*;

use crate::error::PickError;
use crate::log::{
    apply_range, commit_hashes, hashes_of, log_entries, parse_log, range_of, render, rendered,
    select, selected, EntryModel,
};
use crate::naming::{resolve, resolved, BranchPair, NamingScheme};
use crate::text::{trim, trimmed, views};

verus! {

/// How many commits of history the latest-commits mode looks through.
pub const LATEST_WINDOW: u32 = 100;

/// The options of one `pick` run.
#[derive(Debug, Clone, Copy, PartialEq, Eq)]
pub struct PickOptions {
    /// How many commits to list when not in latest-commits mode.
    pub count: u32,
    /// List only the current user's commits, over a deep window of history.
    pub latest: bool,
    /// Only list; never ask to cherry-pick.
    pub show: bool,
}

/// Where a `pick` run stands.
#[derive(Debug, Clone, PartialEq, Eq)]
pub enum PickState {
    Start,
    ReadingBranch,
    CheckingProduction(BranchPair),
    CheckingHomologation(BranchPair),
    ReadingLog(BranchPair),
    /// The pair and the log listing that came back.
    ReadingUser(BranchPair, String),
    /// The newest-first hashes that a confirmation would cherry-pick.
    Confirming(Vec<String>),
    Applying,
    Finished,
}

/// What the outside world answered to the last action.
#[derive(Debug, Clone, PartialEq, Eq)]
pub enum Event {
    Begin,
    /// The current branch, as the version-control tool printed it.
    CurrentBranch(String),
    /// Whether the branch asked about exists.
    BranchExists(bool),
    /// The log listing, or `None` when the query failed.
    Log(Option<String>),
    /// The user's configured name, as the version-control tool printed it.
    User(String),
    /// Whether the user agreed to cherry-pick.
    Confirmation(bool),
    /// Whether the cherry-pick went through without conflict.
    Applied(bool),
}

/// What the session asks of the outside world next.
#[derive(Debug, Clone, PartialEq, Eq)]
pub enum Action {
    QueryCurrentBranch,
    /// Ask whether this branch exists.
    VerifyBranch(String),
    /// List up to `max_count` commits reachable from `tip` and not from `exclude`,
    /// newest first, one `<hash>|<author>|<subject>` line each.
    QueryLog { exclude: String, tip: String, max_count: u32 },
    QueryUser,
    /// Print these lines, then ask whether to cherry-pick.
    Confirm(Vec<String>),
    /// Cherry-pick every commit of this range, oldest first.
    ApplyRange(String),
    /// Print these lines; the run succeeded.
    Finish(Vec<String>),
    /// The run failed.
    Fail(PickError),
}

/// What a `PickError` holds, as sequences of characters.
pub enum ErrorModel {
    InvalidBranchFormat,
    BranchNotFound(Seq<char>),
    ExternalToolFailure,
    UnexpectedEvent,
}

/// What a `PickState` holds, as sequences of characters.
pub enum StateModel {
    Start,
    ReadingBranch,
    CheckingProduction(Seq<char>, Seq<char>),
    CheckingHomologation(Seq<char>, Seq<char>),
    ReadingLog(Seq<char>, Seq<char>),
    ReadingUser(Seq<char>, Seq<char>, Seq<char>),
    Confirming(Seq<Seq<char>>),
    Applying,
    Finished,
}

/// What an `Event` holds, as sequences of characters.
pub enum EventModel {
    Begin,
    CurrentBranch(Seq<char>),
    BranchExists(bool),
    Log(Option<Seq<char>>),
    User(Seq<char>),
    Confirmation(bool),
    Applied(bool),
}

/// What an `Action` holds, as sequences of characters.
pub enum ActionModel {
    QueryCurrentBranch,
    VerifyBranch(Seq<char>),
    QueryLog(Seq<char>, Seq<char>, u32),
    QueryUser,
    Confirm(Seq<Seq<char>>),
    ApplyRange(Seq<char>),
    Finish(Seq<Seq<char>>),
    Fail(ErrorModel),
}

impl View for PickError {
    type V = ErrorModel;

    open spec fn view(&self) -> ErrorModel {
        match self {
            PickError::InvalidBranchFormat => ErrorModel::InvalidBranchFormat,
            PickError::BranchNotFound(b) => ErrorModel::BranchNotFound(b@),
            PickError::ExternalToolFailure => ErrorModel::ExternalToolFailure,
            PickError::UnexpectedEvent => ErrorModel::UnexpectedEvent,
        }
    }
}

impl View for PickState {
    type V = StateModel;

    open spec fn view(&self) -> StateModel {
        match self {
            PickState::Start => StateModel::Start,
            PickState::ReadingBranch => StateModel::ReadingBranch,
            PickState::CheckingProduction(p) => StateModel::CheckingProduction(
                p.production@,
                p.homologation@,
            ),
            PickState::CheckingHomologation(p) => StateModel::CheckingHomologation(
                p.production@,
                p.homologation@,
            ),
            PickState::ReadingLog(p) => StateModel::ReadingLog(p.production@, p.homologation@),
            PickState::ReadingUser(p, out) => StateModel::ReadingUser(
                p.production@,
                p.homologation@,
                out@,
            ),
            PickState::Confirming(h) => StateModel::Confirming(views(h@)),
            PickState::Applying => StateModel::Applying,
            PickState::Finished => StateModel::Finished,
        }
    }
}

impl View for Event {
    type V = EventModel;

    open spec fn view(&self) -> EventModel {
        match self {
            Event::Begin => EventModel::Begin,
            Event::CurrentBranch(b) => EventModel::CurrentBranch(b@),
            Event::BranchExists(x) => EventModel::BranchExists(*x),
            Event::Log(o) => EventModel::Log(
                match o {
                    Some(t) => Some(t@),
                    None => None,
                },
            ),
            Event::User(u) => EventModel::User(u@),
            Event::Confirmation(x) => EventModel::Confirmation(*x),
            Event::Applied(x) => EventModel::Applied(*x),
        }
    }
}

impl View for Action {
    type V = ActionModel;

    open spec fn view(&self) -> ActionModel {
        match self {
            Action::QueryCurrentBranch => ActionModel::QueryCurrentBranch,
            Action::VerifyBranch(b) => ActionModel::VerifyBranch(b@),
            Action::QueryLog { exclude, tip, max_count } => ActionModel::QueryLog(
                exclude@,
                tip@,
                *max_count,
            ),
            Action::QueryUser => ActionModel::QueryUser,
            Action::Confirm(lines) => ActionModel::Confirm(views(lines@)),
            Action::ApplyRange(r) => ActionModel::ApplyRange(r@),
            Action::Finish(lines) => ActionModel::Finish(views(lines@)),
            Action::Fail(e) => ActionModel::Fail(e@),
        }
    }
}

/// How many commits the log query may return.
pub open spec fn log_limit(o: PickOptions) -> u32 {
    if o.latest {
        LATEST_WINDOW
    } else {
        o.count
    }
}

/// The commits that a run lists, out of a log listing, for the user named `user`.
pub open spec fn listed(o: PickOptions, out: Seq<char>, user: Seq<char>) -> Seq<EntryModel> {
    selected(
        log_entries(out),
        if o.latest {
            Some(user)
        } else {
            None
        },
    )
}

/// The notice printed when nothing is listed.
pub open spec fn empty_notice(
    o: PickOptions,
    production: Seq<char>,
    homologation: Seq<char>,
    user: Seq<char>,
) -> Seq<char> {
    if o.latest {
        "No commits found for user '"@ + user + "'"@
    } else {
        "No commits found between '"@ + homologation + "' and '"@ + production + "'"@
    }
}

/// The notice printed when nothing listed is a commit.
pub open spec fn no_hash_notice() -> Seq<char> {
    "No valid commit hashes found in the output"@
}

/// The notice printed after a cherry-pick.
pub open spec fn applied_notice(ok: bool) -> Seq<char> {
    if ok {
        "Successfully cherry-picked commits"@
    } else {
        "Cherry-pick operation failed. You may need to resolve conflicts."@
    }
}

/// What a run does once it knows the log listing and the user's name.
pub open spec fn after_listing(
    o: PickOptions,
    production: Seq<char>,
    homologation: Seq<char>,
    out: Seq<char>,
    user: Seq<char>,
) -> (StateModel, ActionModel) {
    let sel = listed(o, out, user);
    let shown = sel.map_values(|e: EntryModel| rendered(e, user));
    let hs = hashes_of(sel);
    if sel.len() == 0 {
        (
            StateModel::Finished,
            ActionModel::Finish(seq![empty_notice(o, production, homologation, user)]),
        )
    } else if hs.len() == 0 {
        (StateModel::Finished, ActionModel::Finish(shown.push(no_hash_notice())))
    } else if o.show {
        (StateModel::Finished, ActionModel::Finish(shown))
    } else {
        (StateModel::Confirming(hs), ActionModel::Confirm(shown))
    }
}

/// How a run ends on an event it was not waiting for.
pub open spec fn unexpected() -> (StateModel, ActionModel) {
    (StateModel::Finished, ActionModel::Fail(ErrorModel::UnexpectedEvent))
}

/// The next state and action of a run in state `s` on event `e`.
pub open spec fn next(scheme: NamingScheme, o: PickOptions, s: StateModel, e: EventModel) -> (
    StateModel,
    ActionModel,
) {
    match s {
        StateModel::Start => match e {
            EventModel::Begin => (StateModel::ReadingBranch, ActionModel::QueryCurrentBranch),
            _ => unexpected(),
        },
        StateModel::ReadingBranch => match e {
            EventModel::CurrentBranch(raw) => match resolved(
                trimmed(raw),
                scheme.prefix@,
                scheme.suffix_prd@,
                scheme.suffix_hml@,
            ) {
                Some((prd, hml)) => (
                    StateModel::CheckingProduction(prd, hml),
                    ActionModel::VerifyBranch(prd),
                ),
                None => (
                    StateModel::Finished,
                    ActionModel::Fail(ErrorModel::InvalidBranchFormat),
                ),
            },
            _ => unexpected(),
        },
        StateModel::CheckingProduction(prd, hml) => match e {
            EventModel::BranchExists(true) => (
                StateModel::CheckingHomologation(prd, hml),
                ActionModel::VerifyBranch(hml),
            ),
            EventModel::BranchExists(false) => (
                StateModel::Finished,
                ActionModel::Fail(ErrorModel::BranchNotFound(prd)),
            ),
            _ => unexpected(),
        },
        StateModel::CheckingHomologation(prd, hml) => match e {
            EventModel::BranchExists(true) => (
                StateModel::ReadingLog(prd, hml),
                ActionModel::QueryLog(hml, prd, log_limit(o)),
            ),
            EventModel::BranchExists(false) => (
                StateModel::Finished,
                ActionModel::Fail(ErrorModel::BranchNotFound(hml)),
            ),
            _ => unexpected(),
        },
        StateModel::ReadingLog(prd, hml) => match e {
            EventModel::Log(Some(out)) => (
                StateModel::ReadingUser(prd, hml, out),
                ActionModel::QueryUser,
            ),
            EventModel::Log(None) => (
                StateModel::Finished,
                ActionModel::Fail(ErrorModel::ExternalToolFailure),
            ),
            _ => unexpected(),
        },
        StateModel::ReadingUser(prd, hml, out) => match e {
            EventModel::User(raw) => after_listing(o, prd, hml, out, trimmed(raw)),
            _ => unexpected(),
        },
        StateModel::Confirming(hs) => match e {
            EventModel::Confirmation(true) => if hs.len() > 0 {
                (StateModel::Applying, ActionModel::ApplyRange(range_of(hs)))
            } else {
                (StateModel::Finished, ActionModel::Finish(Seq::empty()))
            },
            EventModel::Confirmation(false) => (
                StateModel::Finished,
                ActionModel::Finish(Seq::empty()),
            ),
            _ => unexpected(),
        },
        StateModel::Applying => match e {
            EventModel::Applied(ok) => (
                StateModel::Finished,
                ActionModel::Finish(seq![applied_notice(ok)]),
            ),
            _ => unexpected(),
        },
        StateModel::Finished => unexpected(),
    }
}

/// The state a run reaches and the actions it takes on a sequence of events.
pub open spec fn run(scheme: NamingScheme, o: PickOptions, s: StateModel, events: Seq<EventModel>) -> (
    StateModel,
    Seq<ActionModel>,
)
    decreases events.len(),
{
    if events.len() == 0 {
        (s, Seq::empty())
    } else {
        let (s1, a1) = next(scheme, o, s, events[0]);
        let (sn, rest) = run(scheme, o, s1, events.drop_first());
        (sn, seq![a1] + rest)
    }
}

/// Whether an action leaves the repository as it is.
pub open spec fn read_only(a: ActionModel) -> bool {
    !(a is ApplyRange) && !(a is Confirm)
}

/// Whether a run in this state may still change the repository.
pub open spec fn may_apply(s: StateModel) -> bool {
    s is Confirming || s is Applying
}

proof fn lemma_show_step_read_only(
    scheme: NamingScheme,
    o: PickOptions,
    s: StateModel,
    e: EventModel,
)
    requires
        o.show,
        !may_apply(s),
    ensures
        read_only(next(scheme, o, s, e).1),
        !may_apply(next(scheme, o, s, e).0),
{
}

proof fn lemma_show_run_read_only(
    scheme: NamingScheme,
    o: PickOptions,
    s: StateModel,
    events: Seq<EventModel>,
)
    requires
        o.show,
        !may_apply(s),
    ensures
        forall|i: int|
            0 <= i < run(scheme, o, s, events).1.len() ==> read_only(
                #[trigger] run(scheme, o, s, events).1[i],
            ),
    decreases events.len(),
{
    if events.len() > 0 {
        lemma_show_step_read_only(scheme, o, s, events[0]);
        let s1 = next(scheme, o, s, events[0]).0;
        lemma_show_run_read_only(scheme, o, s1, events.drop_first());
        let acts = run(scheme, o, s, events).1;
        let rest = run(scheme, o, s1, events.drop_first()).1;
        assert forall|i: int| 0 <= i < acts.len() implies read_only(#[trigger] acts[i]) by {
            if i > 0 {
                assert(acts[i] == rest[i - 1]);
            }
        };
    }
}

/// A display-only run never asks to confirm or to cherry-pick, so it leaves the
/// repository as it found it; and what a run does is a function of the answers it
/// gets. So a second display-only run on the same repository gets the same answers
/// and prints the same lines, in the same order.
pub proof fn lemma_show_runs_repeat(
    scheme: NamingScheme,
    o: PickOptions,
    events: Seq<EventModel>,
)
    requires
        o.show,
    ensures
        forall|i: int|
            0 <= i < run(scheme, o, StateModel::Start, events).1.len() ==> read_only(
                #[trigger] run(scheme, o, StateModel::Start, events).1[i],
            ),
{
    lemma_show_run_read_only(scheme, o, StateModel::Start, events);
}

/// One `pick` run: it decides, step by step, what to ask of the version-control tool
/// and of the user, from what they answered.
pub struct PickSession {
    pub scheme: NamingScheme,
    pub options: PickOptions,
    pub state: PickState,
}

fn one_line(s: String) -> (r: Vec<String>)
    ensures
        views(r@) == seq![s@],
{
    let mut r: Vec<String> = Vec::new();
    r.push(s);
    assert(views(r@) =~= seq![s@]);
    r
}

fn no_lines() -> (r: Vec<String>)
    ensures
        views(r@) == Seq::<Seq<char>>::empty(),
{
    let r: Vec<String> = Vec::new();
    assert(views(r@) =~= Seq::<Seq<char>>::empty());
    r
}

/// The notice printed when nothing is listed.
fn empty_notice_text(o: PickOptions, pair: &BranchPair, user: &str) -> (r: String)
    ensures
        r@ == empty_notice(o, pair.production@, pair.homologation@, user@),
{
    if o.latest {
        String::from_str("No commits found for user '").concat(user).concat("'")
    } else {
        String::from_str("No commits found between '").concat(
            pair.homologation.as_str(),
        ).concat("' and '").concat(pair.production.as_str()).concat("'")
    }
}

/// What to do once the log listing and the user's name are known.
fn decide_listing(o: PickOptions, pair: &BranchPair, out: &str, raw_user: &str) -> (r: (
    PickState,
    Action,
))
    ensures
        (r.0@, r.1@) == after_listing(
            o,
            pair.production@,
            pair.homologation@,
            out@,
            trimmed(raw_user@),
        ),
{
    let user = trim(raw_user);
    let entries = parse_log(out);
    let sel = if o.latest {
        select(&entries, Some(user))
    } else {
        select(&entries, None)
    };
    assert(crate::log::models(sel@) == listed(o, out@, user@));
    if sel.len() == 0 {
        return (PickState::Finished, Action::Finish(one_line(empty_notice_text(o, pair, user))));
    }
    let mut shown = render(&sel, user);
    let hashes = commit_hashes(&sel);
    if hashes.len() == 0 {
        let notice = String::from_str("No valid commit hashes found in the output");
        proof {
            crate::text::lemma_views_push(shown@, notice);
        }
        shown.push(notice);
        return (PickState::Finished, Action::Finish(shown));
    }
    if o.show {
        (PickState::Finished, Action::Finish(shown))
    } else {
        (PickState::Confirming(hashes), Action::Confirm(shown))
    }
}

impl PickSession {
    /// A run that has not begun.
    pub fn new(scheme: NamingScheme, options: PickOptions) -> (r: PickSession)
        ensures
            r.scheme == scheme,
            r.options == options,
            r.state@ == StateModel::Start,
    {
        PickSession { scheme, options, state: PickState::Start }
    }

    /// Takes what the outside world answered and says what to do next.
    pub fn step(&mut self, event: Event) -> (r: Action)
        ensures
            final(self).scheme == old(self).scheme,
            final(self).options == old(self).options,
            (final(self).state@, r@) == next(
                old(self).scheme,
                old(self).options,
                old(self).state@,
                event@,
            ),
    {
        let mut st = PickState::Finished;
        std::mem::swap(&mut self.state, &mut st);
        let (ns, action) = match st {
            PickState::Start => match event {
                Event::Begin => (PickState::ReadingBranch, Action::QueryCurrentBranch),
                _ => (PickState::Finished, Action::Fail(PickError::UnexpectedEvent)),
            },
            PickState::ReadingBranch => match event {
                Event::CurrentBranch(raw) => match resolve(trim(raw.as_str()), &self.scheme) {
                    Ok(pair) => {
                        let prd = pair.production.clone();
                        (PickState::CheckingProduction(pair), Action::VerifyBranch(prd))
                    },
                    Err(e) => (PickState::Finished, Action::Fail(e)),
                },
                _ => (PickState::Finished, Action::Fail(PickError::UnexpectedEvent)),
            },
            PickState::CheckingProduction(pair) => match event {
                Event::BranchExists(true) => {
                    let hml = pair.homologation.clone();
                    (PickState::CheckingHomologation(pair), Action::VerifyBranch(hml))
                },
                Event::BranchExists(false) => (
                    PickState::Finished,
                    Action::Fail(PickError::BranchNotFound(pair.production)),
                ),
                _ => (PickState::Finished, Action::Fail(PickError::UnexpectedEvent)),
            },
            PickState::CheckingHomologation(pair) => match event {
                Event::BranchExists(true) => {
                    let exclude = pair.homologation.clone();
                    let tip = pair.production.clone();
                    let max_count = if self.options.latest {
                        LATEST_WINDOW
                    } else {
                        self.options.count
                    };
                    (PickState::ReadingLog(pair), Action::QueryLog { exclude, tip, max_count })
                },
                Event::BranchExists(false) => (
                    PickState::Finished,
                    Action::Fail(PickError::BranchNotFound(pair.homologation)),
                ),
                _ => (PickState::Finished, Action::Fail(PickError::UnexpectedEvent)),
            },
            PickState::ReadingLog(pair) => match event {
                Event::Log(Some(out)) => (PickState::ReadingUser(pair, out), Action::QueryUser),
                Event::Log(None) => (
                    PickState::Finished,
                    Action::Fail(PickError::ExternalToolFailure),
                ),
                _ => (PickState::Finished, Action::Fail(PickError::UnexpectedEvent)),
            },
            PickState::ReadingUser(pair, out) => match event {
                Event::User(raw) => decide_listing(
                    self.options,
                    &pair,
                    out.as_str(),
                    raw.as_str(),
                ),
                _ => (PickState::Finished, Action::Fail(PickError::UnexpectedEvent)),
            },
            PickState::Confirming(hashes) => match event {
                Event::Confirmation(true) => {
                    if hashes.len() > 0 {
                        (PickState::Applying, Action::ApplyRange(apply_range(&hashes)))
                    } else {
                        (PickState::Finished, Action::Finish(no_lines()))
                    }
                },
                Event::Confirmation(false) => (PickState::Finished, Action::Finish(no_lines())),
                _ => (PickState::Finished, Action::Fail(PickError::UnexpectedEvent)),
            },
            PickState::Applying => match event {
                Event::Applied(ok) => {
                    let notice = if ok {
                        String::from_str("Successfully cherry-picked commits")
                    } else {
                        String::from_str(
                            "Cherry-pick operation failed. You may need to resolve conflicts.",
                        )
                    };
                    (PickState::Finished, Action::Finish(one_line(notice)))
                },
                _ => (PickState::Finished, Action::Fail(PickError::UnexpectedEvent)),
            },
            PickState::Finished => (PickState::Finished, Action::Fail(PickError::UnexpectedEvent)),
        };
        self.state = ns;
        action
    }
}

} // verus!
