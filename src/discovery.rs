//! The sender's search for a live endpoint, as a state machine: it says which
//! path to connect to next, and the caller reports how the attempt went.
//!
//! The order is: an explicit path alone, when one is given; else the path that
//! the environment names, then every endpoint file of the session in the
//! endpoint directory. The first connection that succeeds ends the search.
use vstd::prelude::*;

use crate::endpoint::{is_candidate_name, is_socket_file, join_path, joined, opt_view};

verus! {

/// Where a candidate path came from.
#[derive(Debug, PartialEq, Eq, Structural, Clone, Copy)]
pub enum Origin {
    Explicit,
    Environment,
    Directory,
}

/// How an attempt to connect ended.
#[derive(Debug, PartialEq, Eq, Structural, Clone, Copy)]
pub enum ConnectOutcome {
    Connected,
    /// Nobody listens there: the file is an orphan of a process that died.
    Refused,
    /// Any other failure, such as a permission error.
    OtherError,
}

/// Why no endpoint was found.
#[derive(Debug, PartialEq)]
pub enum DiscoveryError {
    /// The explicit path could not be connected to.
    InvalidPath(String),
    /// No candidate accepted a connection.
    NotFound,
}

/// What the caller is to do next.
#[derive(Debug, PartialEq)]
pub enum Step {
    /// Connect to this path and report the outcome.
    Connect(String),
    /// List the endpoint directory and hand over the entries' names.
    ListDirectory,
    /// Use the connection made to this path.
    Found(String),
    Failed(DiscoveryError),
}

/// `DiscoveryError` with paths as character sequences.
pub enum ErrorModel {
    InvalidPath(Seq<char>),
    NotFound,
}

/// `Step` with paths as character sequences.
pub enum StepModel {
    Connect(Seq<char>),
    ListDirectory,
    Found(Seq<char>),
    Failed(ErrorModel),
}

/// The state of a search.
pub struct DiscoveryState {
    /// Candidates not tried yet, in order.
    pub pending: Seq<(Seq<char>, Origin)>,
    /// The directory was listed (or is never to be).
    pub listed: bool,
    /// The end of the search, once reached by a connection or an explicit
    /// path's failure.
    pub done: Option<Result<Seq<char>, ErrorModel>>,
    pub dir: Seq<char>,
    pub prefix: Seq<char>,
}

/// A search in progress.
pub struct Discovery {
    queue: Vec<(String, Origin)>,
    listed: bool,
    done: Option<Result<String, DiscoveryError>>,
    dir: String,
    prefix: String,
}

pub open spec fn error_view(e: DiscoveryError) -> ErrorModel {
    match e {
        DiscoveryError::InvalidPath(p) => ErrorModel::InvalidPath(p@),
        DiscoveryError::NotFound => ErrorModel::NotFound,
    }
}

impl View for Step {
    type V = StepModel;

    open spec fn view(&self) -> StepModel {
        match self {
            Step::Connect(p) => StepModel::Connect(p@),
            Step::ListDirectory => StepModel::ListDirectory,
            Step::Found(p) => StepModel::Found(p@),
            Step::Failed(e) => StepModel::Failed(error_view(*e)),
        }
    }
}

impl View for Discovery {
    type V = DiscoveryState;

    closed spec fn view(&self) -> DiscoveryState {
        DiscoveryState {
            pending: self.queue@.map_values(|c: (String, Origin)| (c.0@, c.1)),
            listed: self.listed,
            done: match self.done {
                Some(Ok(p)) => Some(Ok(p@)),
                Some(Err(e)) => Some(Err(error_view(e))),
                None => None,
            },
            dir: self.dir@,
            prefix: self.prefix@,
        }
    }
}

/// The endpoint files of the session among the directory's entries, as paths.
pub open spec fn scan_candidates(dir: Seq<char>, prefix: Seq<char>, names: Seq<Seq<char>>) -> Seq<(Seq<char>, Origin)> {
    names.filter(|n: Seq<char>| is_candidate_name(n, prefix)).map_values(|n: Seq<char>| (joined(dir, n), Origin::Directory))
}

/// The state at the start of a search.
pub open spec fn initial_state(
    explicit: Option<Seq<char>>,
    env_path: Option<Seq<char>>,
    dir: Seq<char>,
    prefix: Seq<char>,
) -> DiscoveryState {
    match explicit {
        Some(p) => DiscoveryState { pending: seq![(p, Origin::Explicit)], listed: true, done: None, dir, prefix },
        None => DiscoveryState {
            pending: match env_path {
                Some(e) => seq![(e, Origin::Environment)],
                None => Seq::empty(),
            },
            listed: false,
            done: None,
            dir,
            prefix,
        },
    }
}

/// What to do in a state.
pub open spec fn next_step(s: DiscoveryState) -> StepModel {
    match s.done {
        Some(Ok(p)) => StepModel::Found(p),
        Some(Err(e)) => StepModel::Failed(e),
        None => if s.pending.len() > 0 {
            StepModel::Connect(s.pending[0].0)
        } else if !s.listed {
            StepModel::ListDirectory
        } else {
            StepModel::Failed(ErrorModel::NotFound)
        },
    }
}

/// Whether the path just tried is an orphan to delete.
pub open spec fn orphan_after(s: DiscoveryState, o: ConnectOutcome) -> Option<Seq<char>> {
    if s.done is None && s.pending.len() > 0 && s.pending[0].1 == Origin::Directory && o
        == ConnectOutcome::Refused {
        Some(s.pending[0].0)
    } else {
        None
    }
}

/// The state after the outcome of the attempt on the first pending candidate.
pub open spec fn after_connect(s: DiscoveryState, o: ConnectOutcome) -> DiscoveryState {
    if s.done is Some || s.pending.len() == 0 {
        s
    } else if o == ConnectOutcome::Connected {
        DiscoveryState { pending: s.pending.drop_first(), done: Some(Ok(s.pending[0].0)), ..s }
    } else if s.pending[0].1 == Origin::Explicit {
        DiscoveryState {
            pending: s.pending.drop_first(),
            done: Some(Err(ErrorModel::InvalidPath(s.pending[0].0))),
            ..s
        }
    } else {
        DiscoveryState { pending: s.pending.drop_first(), ..s }
    }
}

/// The state after the directory was listed.
pub open spec fn after_listing(s: DiscoveryState, names: Seq<Seq<char>>) -> DiscoveryState {
    if s.done is Some || s.pending.len() > 0 || s.listed {
        s
    } else {
        DiscoveryState { pending: scan_candidates(s.dir, s.prefix, names), listed: true, ..s }
    }
}

impl Discovery {
    /// Starts a search. `env_path` is the endpoint that the environment names;
    /// `dir` the endpoint directory and `prefix` the session's file prefix.
    pub fn new(explicit: Option<String>, env_path: Option<String>, dir: String, prefix: String) -> (r: Discovery)
        ensures
            r@ == initial_state(opt_view(explicit), opt_view(env_path), dir@, prefix@),
    {
        let mut queue: Vec<(String, Origin)> = Vec::new();
        let listed = explicit.is_some();
        match explicit {
            Some(p) => queue.push((p, Origin::Explicit)),
            None => match env_path {
                Some(e) => queue.push((e, Origin::Environment)),
                None => {},
            },
        }
        let r = Discovery { queue, listed, done: None, dir, prefix };
        assert(r@.pending =~= initial_state(opt_view(explicit), opt_view(env_path), dir@, prefix@).pending);
        r
    }

    /// What the caller is to do next.
    pub fn step(&self) -> (r: Step)
        ensures
            r@ == next_step(self@),
    {
        match &self.done {
            Some(Ok(p)) => return Step::Found(p.clone()),
            Some(Err(DiscoveryError::InvalidPath(p))) => return Step::Failed(DiscoveryError::InvalidPath(p.clone())),
            Some(Err(DiscoveryError::NotFound)) => return Step::Failed(DiscoveryError::NotFound),
            None => {},
        }
        if self.queue.len() > 0 {
            Step::Connect(self.queue[0].0.clone())
        } else if !self.listed {
            Step::ListDirectory
        } else {
            Step::Failed(DiscoveryError::NotFound)
        }
    }

    /// Reports how the attempt on the path of `Step::Connect` ended. Returns
    /// the path to delete when it was a directory entry that refused the
    /// connection; failing to delete it is of no consequence.
    pub fn report(&mut self, outcome: ConnectOutcome) -> (r: Option<String>)
        ensures
            final(self)@ == after_connect(old(self)@, outcome),
            opt_view(r) == orphan_after(old(self)@, outcome),
    {
        if self.done.is_some() || self.queue.len() == 0 {
            return None;
        }
        let ghost before = self@;
        let (path, origin) = self.queue.remove(0);
        assert(self@.pending =~= before.pending.drop_first());
        match outcome {
            ConnectOutcome::Connected => {
                self.done = Some(Ok(path));
                None
            },
            _ => {
                if origin == Origin::Explicit {
                    self.done = Some(Err(DiscoveryError::InvalidPath(path)));
                    None
                } else {
                    if origin == Origin::Directory && outcome == ConnectOutcome::Refused {
                        Some(path)
                    } else {
                        None
                    }
                }
            },
        }
    }

    /// Hands over the names of the endpoint directory's entries, after
    /// `Step::ListDirectory`.
    pub fn listed(&mut self, names: Vec<String>)
        ensures
            final(self)@ == after_listing(old(self)@, names@.map_values(|n: String| n@)),
    {
        if self.done.is_some() || self.queue.len() > 0 || self.listed {
            return;
        }
        let ghost views = names@.map_values(|n: String| n@);
        let mut queue: Vec<(String, Origin)> = Vec::new();
        let mut i: usize = 0;
        while i < names.len()
            invariant
                i <= names@.len(),
                views == names@.map_values(|n: String| n@),
                queue@.map_values(|c: (String, Origin)| (c.0@, c.1)) == scan_candidates(
                    self.dir@,
                    self.prefix@,
                    views.take(i as int),
                ),
            decreases names@.len() - i,
        {
            let ghost old_q = queue@;
            assert(views.take(i + 1) =~= views.take(i as int).push(views[i as int]));
            let ghost pred = |n: Seq<char>| is_candidate_name(n, self.prefix@);
            proof {
                views.take(i as int).lemma_filter_push(views[i as int], pred);
            }
            if is_socket_file(names[i].as_str(), self.prefix.as_str()) {
                let path = join_path(self.dir.as_str(), names[i].as_str());
                queue.push((path, Origin::Directory));
                assert(queue@.map_values(|c: (String, Origin)| (c.0@, c.1)) =~= old_q.map_values(
                    |c: (String, Origin)| (c.0@, c.1),
                ).push((joined(self.dir@, views[i as int]), Origin::Directory)));
            }
            i = i + 1;
        }
        assert(views.take(names@.len() as int) =~= views);
        self.queue = queue;
        self.listed = true;
        assert(self@.pending =~= queue@.map_values(|c: (String, Origin)| (c.0@, c.1)));
    }
}

} // verus!

verus! {

/// The candidates in the order a search tries them, for a directory holding
/// `names`: the explicit path alone, or the environment's path and then the
/// session's endpoint files.
pub open spec fn plan(
    explicit: Option<Seq<char>>,
    env_path: Option<Seq<char>>,
    dir: Seq<char>,
    prefix: Seq<char>,
    names: Seq<Seq<char>>,
) -> Seq<(Seq<char>, Origin)> {
    let s = initial_state(explicit, env_path, dir, prefix);
    remaining(s, names)
}

/// The candidates still to try from a state, for a directory holding `names`.
pub open spec fn remaining(s: DiscoveryState, names: Seq<Seq<char>>) -> Seq<(Seq<char>, Origin)> {
    if s.listed {
        s.pending
    } else {
        s.pending + scan_candidates(s.dir, s.prefix, names)
    }
}

/// The first candidates of `order`, up to and including the first one that
/// accepts a connection.
pub open spec fn until_success(
    order: Seq<(Seq<char>, Origin)>,
    outcome: spec_fn(Seq<char>) -> ConnectOutcome,
) -> Seq<(Seq<char>, Origin)>
    decreases order.len(),
{
    if order.len() == 0 {
        order
    } else if outcome(order[0].0) == ConnectOutcome::Connected {
        seq![order[0]]
    } else {
        seq![order[0]] + until_success(order.drop_first(), outcome)
    }
}

pub open spec fn search_measure(s: DiscoveryState, names: Seq<Seq<char>>) -> nat {
    if s.done is Some {
        0
    } else {
        1 + s.pending.len() + if s.listed {
            0
        } else {
            names.len() + 1
        }
    }
}

/// The candidates a search tries from state `s`, when each connection to a
/// path ends as `outcome` says and the directory holds `names`.
pub open spec fn attempts(
    s: DiscoveryState,
    outcome: spec_fn(Seq<char>) -> ConnectOutcome,
    names: Seq<Seq<char>>,
) -> Seq<(Seq<char>, Origin)>
    decreases search_measure(s, names),
    via attempts_decrease
{
    if s.done is Some {
        Seq::empty()
    } else if s.pending.len() > 0 {
        seq![s.pending[0]] + attempts(after_connect(s, outcome(s.pending[0].0)), outcome, names)
    } else if !s.listed {
        attempts(after_listing(s, names), outcome, names)
    } else {
        Seq::empty()
    }
}

#[via_fn]
proof fn attempts_decrease(
    s: DiscoveryState,
    outcome: spec_fn(Seq<char>) -> ConnectOutcome,
    names: Seq<Seq<char>>,
) {
    names.filter(|n: Seq<char>| is_candidate_name(n, s.prefix)).lemma_filter_len(
        |n: Seq<char>| is_candidate_name(n, s.prefix),
    );
}

/// The files a search from state `s` deletes, in order, under the same
/// assumptions as `attempts`.
pub open spec fn removals(
    s: DiscoveryState,
    outcome: spec_fn(Seq<char>) -> ConnectOutcome,
    names: Seq<Seq<char>>,
) -> Seq<Seq<char>>
    decreases search_measure(s, names),
    via removals_decrease
{
    if s.done is Some {
        Seq::empty()
    } else if s.pending.len() > 0 {
        let o = outcome(s.pending[0].0);
        let here = match orphan_after(s, o) {
            Some(p) => seq![p],
            None => Seq::empty(),
        };
        here + removals(after_connect(s, o), outcome, names)
    } else if !s.listed {
        removals(after_listing(s, names), outcome, names)
    } else {
        Seq::empty()
    }
}

#[via_fn]
proof fn removals_decrease(
    s: DiscoveryState,
    outcome: spec_fn(Seq<char>) -> ConnectOutcome,
    names: Seq<Seq<char>>,
) {
    names.filter(|n: Seq<char>| is_candidate_name(n, s.prefix)).lemma_filter_len(
        |n: Seq<char>| is_candidate_name(n, s.prefix),
    );
}

/// An explicit path is only ever pending alone, with no listing to come.
pub open spec fn explicit_alone(s: DiscoveryState) -> bool {
    forall|i: int| 0 <= i < s.pending.len() && #[trigger] s.pending[i].1 == Origin::Explicit ==> s.pending.len()
        == 1 && s.listed
}

proof fn lemma_attempts_follow_order(
    s: DiscoveryState,
    outcome: spec_fn(Seq<char>) -> ConnectOutcome,
    names: Seq<Seq<char>>,
)
    requires
        s.done is None,
        explicit_alone(s),
    ensures
        attempts(s, outcome, names) == until_success(remaining(s, names), outcome),
    decreases search_measure(s, names),
{
    let scan = scan_candidates(s.dir, s.prefix, names);
    names.filter(|n: Seq<char>| is_candidate_name(n, s.prefix)).lemma_filter_len(
        |n: Seq<char>| is_candidate_name(n, s.prefix),
    );
    if s.pending.len() > 0 {
        let h = s.pending[0];
        let o = outcome(h.0);
        let t = after_connect(s, o);
        let rem = remaining(s, names);
        assert(rem[0] == h);
        if o == ConnectOutcome::Connected {
            assert(attempts(t, outcome, names) == Seq::<(Seq<char>, Origin)>::empty());
            assert(attempts(s, outcome, names) =~= seq![h]);
        } else if h.1 == Origin::Explicit {
            assert(rem =~= seq![h]);
            assert(rem.drop_first() =~= Seq::<(Seq<char>, Origin)>::empty());
            assert(attempts(t, outcome, names) == Seq::<(Seq<char>, Origin)>::empty());
            assert(attempts(s, outcome, names) =~= seq![h]);
            assert(until_success(rem, outcome) =~= seq![h] + until_success(rem.drop_first(), outcome));
        } else {
            assert(explicit_alone(t)) by {
                assert forall|i: int| 0 <= i < t.pending.len() && #[trigger] t.pending[i].1 == Origin::Explicit implies t.pending.len()
                    == 1 && t.listed by {
                    assert(t.pending[i] == s.pending[i + 1]);
                }
            }
            lemma_attempts_follow_order(t, outcome, names);
            assert(remaining(t, names) =~= rem.drop_first());
        }
    } else if !s.listed {
        let t = after_listing(s, names);
        assert(explicit_alone(t)) by {
            assert forall|i: int| 0 <= i < t.pending.len() && #[trigger] t.pending[i].1 == Origin::Explicit implies t.pending.len()
                == 1 && t.listed by {
                assert(t.pending[i].1 == Origin::Directory);
            }
        }
        lemma_attempts_follow_order(t, outcome, names);
        assert(remaining(t, names) =~= remaining(s, names));
    } else {
        assert(remaining(s, names) =~= Seq::<(Seq<char>, Origin)>::empty());
    }
}

/// A search tries the explicit path alone when there is one; else the
/// environment's path, then the session's endpoint files in directory order;
/// and it stops at the first connection that succeeds. So each candidate is
/// tried at most once.
pub proof fn lemma_discovery_order(
    explicit: Option<Seq<char>>,
    env_path: Option<Seq<char>>,
    dir: Seq<char>,
    prefix: Seq<char>,
    names: Seq<Seq<char>>,
    outcome: spec_fn(Seq<char>) -> ConnectOutcome,
)
    ensures
        attempts(initial_state(explicit, env_path, dir, prefix), outcome, names) == until_success(
            plan(explicit, env_path, dir, prefix, names),
            outcome,
        ),
{
    let s = initial_state(explicit, env_path, dir, prefix);
    lemma_attempts_follow_order(s, outcome, names);
}

pub open spec fn is_orphan(c: (Seq<char>, Origin), outcome: spec_fn(Seq<char>) -> ConnectOutcome) -> bool {
    c.1 == Origin::Directory && outcome(c.0) == ConnectOutcome::Refused
}

proof fn lemma_removals_are_refused(
    s: DiscoveryState,
    outcome: spec_fn(Seq<char>) -> ConnectOutcome,
    names: Seq<Seq<char>>,
)
    ensures
        removals(s, outcome, names) == attempts(s, outcome, names).filter(
            |c: (Seq<char>, Origin)| is_orphan(c, outcome),
        ).map_values(|c: (Seq<char>, Origin)| c.0),
    decreases search_measure(s, names),
{
    let pred = |c: (Seq<char>, Origin)| is_orphan(c, outcome);
    let fst = |c: (Seq<char>, Origin)| c.0;
    names.filter(|n: Seq<char>| is_candidate_name(n, s.prefix)).lemma_filter_len(
        |n: Seq<char>| is_candidate_name(n, s.prefix),
    );
    if s.done is Some {
        assert(attempts(s, outcome, names).filter(pred) =~= Seq::<(Seq<char>, Origin)>::empty());
        assert(removals(s, outcome, names) =~= attempts(s, outcome, names).filter(pred).map_values(fst));
    } else if s.pending.len() > 0 {
        let h = s.pending[0];
        let o = outcome(h.0);
        let t = after_connect(s, o);
        lemma_removals_are_refused(t, outcome, names);
        let rest = attempts(t, outcome, names);
        rest.lemma_filter_prepend(h, pred);
        assert(attempts(s, outcome, names) == seq![h] + rest);
        if pred(h) {
            assert((seq![h] + rest.filter(pred)).map_values(fst) =~= seq![h.0] + rest.filter(pred).map_values(fst));
        } else {
            assert(orphan_after(s, o) is None);
        }
        assert(removals(s, outcome, names) =~= attempts(s, outcome, names).filter(pred).map_values(fst));
    } else if !s.listed {
        lemma_removals_are_refused(after_listing(s, names), outcome, names);
    } else {
        assert(attempts(s, outcome, names).filter(pred) =~= Seq::<(Seq<char>, Origin)>::empty());
        assert(removals(s, outcome, names) =~= attempts(s, outcome, names).filter(pred).map_values(fst));
    }
}

/// A search deletes exactly the endpoint files of the directory that it tried
/// and that refused the connection, each when it was tried; since it tries
/// each candidate at most once, it deletes each of them once. Failing to delete
/// (another process got there first) is never reported to it.
pub proof fn lemma_orphans_removed_once(
    explicit: Option<Seq<char>>,
    env_path: Option<Seq<char>>,
    dir: Seq<char>,
    prefix: Seq<char>,
    names: Seq<Seq<char>>,
    outcome: spec_fn(Seq<char>) -> ConnectOutcome,
)
    ensures
        removals(initial_state(explicit, env_path, dir, prefix), outcome, names) == until_success(
            plan(explicit, env_path, dir, prefix, names),
            outcome,
        ).filter(|c: (Seq<char>, Origin)| is_orphan(c, outcome)).map_values(|c: (Seq<char>, Origin)| c.0),
{
    let s = initial_state(explicit, env_path, dir, prefix);
    lemma_removals_are_refused(s, outcome, names);
    lemma_attempts_follow_order(s, outcome, names);
}

} // verus!
