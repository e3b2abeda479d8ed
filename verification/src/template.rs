//! The template-facing layer: typed resolution of the keyword arguments a
//! template call supplies, and the state machine of one render pass, from
//! compilation through evaluation to completion or failure.

use vstd::prelude::*;

use crate::github::GithubClientError;

verus! {

/// Why a render pass failed.
#[derive(Clone, Debug, PartialEq, Eq)]
pub enum RendererError {
    /// A provider call against the code-hosting service failed.
    GithubClientError(GithubClientError),
    /// The template could not be compiled, or a call inside it failed; the
    /// engine's or the failing call's own message is carried, untruncated.
    TemplateError(String),
}

impl RendererError {
    /// The description a render pass reports: the failing operation's own
    /// message, never a summary of it.
    pub open spec fn spec_message(&self) -> Seq<char> {
        match self {
            RendererError::GithubClientError(e) => e.spec_message(),
            RendererError::TemplateError(m) => m@,
        }
    }

    /// A human-readable description of the failure.
    pub fn message(&self) -> (m: &str)
        ensures
            m@ == self.spec_message(),
    {
        match self {
            RendererError::GithubClientError(e) => e.message(),
            RendererError::TemplateError(m) => m.as_str(),
        }
    }
}

/// One value a template call can hand to a registered function, as far as
/// the argument resolution inspects it: a number within a machine word, a
/// string, a boolean, nothing, or something else entirely.
#[derive(Debug)]
pub enum ArgValue {
    Null,
    Bool(bool),
    Int(i64),
    UInt(u64),
    Str(String),
    Other,
}

impl ArgValue {
    /// What reading the value as a signed integer yields.
    pub open spec fn as_i64_spec(&self) -> Option<i64> {
        match self {
            ArgValue::Int(i) => Some(*i),
            ArgValue::UInt(u) => if *u <= i64::MAX as u64 {
                Some(*u as i64)
            } else {
                None
            },
            _ => None,
        }
    }

    /// Read the value as a signed integer; anything that is not an integral
    /// number within range reads as absent.
    pub fn as_i64(&self) -> (r: Option<i64>)
        ensures
            r == self.as_i64_spec(),
    {
        match self {
            ArgValue::Int(i) => Some(*i),
            ArgValue::UInt(u) => if *u <= (i64::MAX as u64) {
                Some(*u as i64)
            } else {
                None
            },
            _ => None,
        }
    }

    /// What reading the value as an unsigned integer yields.
    pub open spec fn as_u64_spec(&self) -> Option<u64> {
        match self {
            ArgValue::Int(i) => if *i >= 0 {
                Some(*i as u64)
            } else {
                None
            },
            ArgValue::UInt(u) => Some(*u),
            _ => None,
        }
    }

    /// Read the value as an unsigned integer; anything that is not an
    /// integral non-negative number reads as absent.
    pub fn as_u64(&self) -> (r: Option<u64>)
        ensures
            r == self.as_u64_spec(),
    {
        match self {
            ArgValue::Int(i) => if *i >= 0 {
                Some(*i as u64)
            } else {
                None
            },
            ArgValue::UInt(u) => Some(*u),
            _ => None,
        }
    }

    /// What reading the value as text yields.
    pub open spec fn as_str_spec(&self) -> Option<Seq<char>> {
        match self {
            ArgValue::Str(s) => Some(s@),
            _ => None,
        }
    }

    /// Read the value as text; anything that is not a string reads as absent.
    pub fn as_str(&self) -> (r: Option<&str>)
        ensures
            match r {
                Some(v) => self.as_str_spec() == Some(v@),
                None => self.as_str_spec() is None,
            },
    {
        match self {
            ArgValue::Str(s) => Some(s.as_str()),
            _ => None,
        }
    }
}

/// The keyword arguments of one template call, in the order the engine
/// hands them over.
pub struct CallArgs {
    pub entries: Vec<(String, ArgValue)>,
}

/// The first entry named `name`, if any.
pub open spec fn spec_lookup(entries: Seq<(String, ArgValue)>, name: Seq<char>) -> Option<ArgValue>
    decreases entries.len(),
{
    if entries.len() == 0 {
        None
    } else if entries.first().0@ == name {
        Some(entries.first().1)
    } else {
        spec_lookup(entries.drop_first(), name)
    }
}

/// Whether two string slices hold the same characters.
fn str_eq(a: &str, b: &str) -> (r: bool)
    ensures
        r == (a@ == b@),
{
    let x = a.to_owned();
    let y = b.to_owned();
    x == y
}

impl CallArgs {
    /// Look the named argument up.
    pub fn get(&self, name: &str) -> (r: Option<&ArgValue>)
        ensures
            match r {
                Some(v) => spec_lookup(self.entries@, name@) == Some(*v),
                None => spec_lookup(self.entries@, name@) is None,
            },
    {
        let n = self.entries.len();
        let mut i: usize = 0;
        proof {
            assert(self.entries@.skip(0) =~= self.entries@);
        }
        while i < n
            invariant
                i <= n,
                n == self.entries@.len(),
                spec_lookup(self.entries@, name@) == spec_lookup(
                    self.entries@.skip(i as int),
                    name@,
                ),
            decreases n - i,
        {
            proof {
                assert(self.entries@.skip(i as int).first() == self.entries@[i as int]);
            }
            if str_eq(self.entries[i].0.as_str(), name) {
                return Some(&self.entries[i].1);
            }
            proof {
                assert(self.entries@.skip(i as int).drop_first() =~= self.entries@.skip(
                    i as int + 1,
                ));
            }
            i = i + 1;
        }
        proof {
            assert(self.entries@.skip(n as int).len() == 0);
        }
        None
    }
}

/// The typed options of a contribution, pull-request or repository call.
#[derive(Debug, PartialEq, Eq)]
pub struct CountOptions {
    pub count: Option<i64>,
}

/// What resolving the optional `count` argument yields: the argument read as
/// a signed integer; an absent or unreadable argument resolves to no count.
pub open spec fn spec_count(entries: Seq<(String, ArgValue)>) -> Option<i64> {
    match spec_lookup(entries, "count"@) {
        Some(v) => v.as_i64_spec(),
        None => None,
    }
}

/// Resolve the arguments of a contribution, pull-request or repository call.
pub fn resolve_count(args: &CallArgs) -> (r: CountOptions)
    ensures
        r.count == spec_count(args.entries@),
{
    let count = match args.get("count") {
        Some(v) => v.as_i64(),
        None => None,
    };
    CountOptions { count }
}

/// The typed options of a feed call.
#[derive(Debug, PartialEq, Eq)]
pub struct FeedOptions {
    pub url: String,
    pub count: Option<u64>,
}

/// What resolving the feed's optional `count` argument yields.
pub open spec fn spec_feed_count(entries: Seq<(String, ArgValue)>) -> Option<u64> {
    match spec_lookup(entries, "count"@) {
        Some(v) => v.as_u64_spec(),
        None => None,
    }
}

/// What resolving the feed's `url` argument yields once it is present: its
/// text, or empty text when the argument is not a string.
pub open spec fn spec_feed_url(entries: Seq<(String, ArgValue)>) -> Seq<char> {
    match spec_lookup(entries, "url"@) {
        Some(v) => match v.as_str_spec() {
            Some(s) => s,
            None => Seq::empty(),
        },
        None => Seq::empty(),
    }
}

/// Resolve the arguments of a feed call. The `url` argument is required:
/// without it the call fails, with a message naming the missing url; it
/// never resolves to an empty post list silently.
pub fn resolve_feed(args: &CallArgs) -> (r: Result<FeedOptions, String>)
    ensures
        r is Ok <==> spec_lookup(args.entries@, "url"@) is Some,
        r matches Err(m) ==> m@ == "Failed to read rss feed, no url provided"@,
        r matches Ok(o) ==> o.count == spec_feed_count(args.entries@) && o.url@ == spec_feed_url(
            args.entries@,
        ),
{
    let count = match args.get("count") {
        Some(v) => v.as_u64(),
        None => None,
    };
    let url = match args.get("url") {
        Some(v) => match v.as_str() {
            Some(s) => s.to_owned(),
            None => String::new(),
        },
        None => {
            return Err("Failed to read rss feed, no url provided".to_owned());
        },
    };
    Ok(FeedOptions { url, count })
}

/// Where one render pass stands.
#[derive(Clone, Copy, Debug, PartialEq, Eq, Structural)]
pub enum RenderState {
    Uninitialized,
    TemplateCompiled,
    Evaluating,
    Completed,
    Failed,
}

/// One step a render pass can take.
#[derive(Clone, Copy, Debug, PartialEq, Eq, Structural)]
pub enum RenderEvent {
    CompileOk,
    CompileFail,
    EvalStart,
    CallOk,
    CallFail,
    EvalDone,
}

/// Whether a pass in state `s` can take the event `e`: compilation comes
/// first, provider calls happen only while evaluating, and completion or
/// failure is the end.
pub open spec fn accepts(s: RenderState, e: RenderEvent) -> bool {
    match (s, e) {
        (RenderState::Uninitialized, RenderEvent::CompileOk) => true,
        (RenderState::Uninitialized, RenderEvent::CompileFail) => true,
        (RenderState::TemplateCompiled, RenderEvent::EvalStart) => true,
        (RenderState::Evaluating, RenderEvent::CallOk) => true,
        (RenderState::Evaluating, RenderEvent::CallFail) => true,
        (RenderState::Evaluating, RenderEvent::EvalDone) => true,
        _ => false,
    }
}

/// The state after taking event `e` in state `s`.
pub open spec fn next_state(s: RenderState, e: RenderEvent) -> RenderState {
    match (s, e) {
        (RenderState::Uninitialized, RenderEvent::CompileOk) => RenderState::TemplateCompiled,
        (RenderState::Uninitialized, RenderEvent::CompileFail) => RenderState::Failed,
        (RenderState::TemplateCompiled, RenderEvent::EvalStart) => RenderState::Evaluating,
        (RenderState::Evaluating, RenderEvent::CallOk) => RenderState::Evaluating,
        (RenderState::Evaluating, RenderEvent::CallFail) => RenderState::Failed,
        (RenderState::Evaluating, RenderEvent::EvalDone) => RenderState::Completed,
        _ => s,
    }
}

/// Whether the event is a provider invocation.
pub open spec fn is_provider_call(e: RenderEvent) -> bool {
    e == RenderEvent::CallOk || e == RenderEvent::CallFail
}

/// A well-formed trace takes only accepted events.
pub open spec fn wf_trace(s: RenderState, events: Seq<RenderEvent>) -> bool
    decreases events.len(),
{
    events.len() == 0 || (accepts(s, events.first()) && wf_trace(
        next_state(s, events.first()),
        events.drop_first(),
    ))
}

/// The state a trace of events ends in.
pub open spec fn run(s: RenderState, events: Seq<RenderEvent>) -> RenderState
    decreases events.len(),
{
    if events.len() == 0 {
        s
    } else {
        run(next_state(s, events.first()), events.drop_first())
    }
}

/// How many provider invocations a trace makes.
pub open spec fn provider_calls(events: Seq<RenderEvent>) -> int
    decreases events.len(),
{
    if events.len() == 0 {
        0
    } else {
        (if is_provider_call(events.first()) {
            1int
        } else {
            0int
        }) + provider_calls(events.drop_first())
    }
}

/// A failed pass accepts nothing more: failure aborts the render.
pub proof fn lemma_failed_is_terminal(events: Seq<RenderEvent>)
    requires
        wf_trace(RenderState::Failed, events),
    ensures
        events.len() == 0,
{
}

/// A template whose compilation fails invokes no function. A
/// well-formed render pass that begins with a failed compile makes zero
/// provider calls and ends failed.
pub proof fn lemma_compile_failure_invokes_nothing(events: Seq<RenderEvent>)
    requires
        wf_trace(RenderState::Uninitialized, events),
        events.len() > 0,
        events.first() == RenderEvent::CompileFail,
    ensures
        provider_calls(events) == 0,
        run(RenderState::Uninitialized, events) == RenderState::Failed,
{
    let rest = events.drop_first();
    assert(next_state(RenderState::Uninitialized, RenderEvent::CompileFail) == RenderState::Failed);
    lemma_failed_is_terminal(rest);
    assert(provider_calls(rest) == 0);
    assert(!is_provider_call(events.first()));
    assert(provider_calls(events) == provider_calls(rest));
    assert(run(RenderState::Failed, rest) == RenderState::Failed);
    assert(run(RenderState::Uninitialized, events) == run(RenderState::Failed, rest));
}

/// A failed provider call aborts the render. A well-formed render pass
/// containing a failed call takes nothing after it and ends failed, never
/// reporting success.
pub proof fn lemma_call_failure_aborts(s: RenderState, events: Seq<RenderEvent>)
    requires
        wf_trace(s, events),
        exists|i: int| 0 <= i < events.len() && events[i] == RenderEvent::CallFail,
    ensures
        run(s, events) == RenderState::Failed,
    decreases events.len(),
{
    let i = choose|i: int| 0 <= i < events.len() && events[i] == RenderEvent::CallFail;
    let rest = events.drop_first();
    if i == 0 {
        assert(accepts(s, events.first()));
        assert(next_state(s, events.first()) == RenderState::Failed);
        lemma_failed_is_terminal(rest);
        assert(run(RenderState::Failed, rest) == RenderState::Failed);
        assert(run(s, events) == run(RenderState::Failed, rest));
    } else {
        assert(rest[i - 1] == RenderEvent::CallFail);
        lemma_call_failure_aborts(next_state(s, events.first()), rest);
        assert(run(s, events) == run(next_state(s, events.first()), rest));
    }
}

/// One render pass, bound to the acting identity, tracking where it stands
/// and how many provider invocations its template has made.
pub struct Renderer {
    pub github_username: String,
    pub state: RenderState,
    pub calls: u64,
}

impl Renderer {
    /// A fresh render pass bound to the acting identity.
    pub fn new(github_username: String) -> (r: Renderer)
        ensures
            r.github_username == github_username,
            r.state == RenderState::Uninitialized,
            r.calls == 0,
    {
        Renderer { github_username, state: RenderState::Uninitialized, calls: 0 }
    }

    /// Whether the pass can take the event.
    pub fn can_step(&self, event: RenderEvent) -> (b: bool)
        ensures
            b == accepts(self.state, event),
    {
        match (self.state, event) {
            (RenderState::Uninitialized, RenderEvent::CompileOk) => true,
            (RenderState::Uninitialized, RenderEvent::CompileFail) => true,
            (RenderState::TemplateCompiled, RenderEvent::EvalStart) => true,
            (RenderState::Evaluating, RenderEvent::CallOk) => true,
            (RenderState::Evaluating, RenderEvent::CallFail) => true,
            (RenderState::Evaluating, RenderEvent::EvalDone) => true,
            _ => false,
        }
    }

    /// Take one step of the render pass.
    pub fn step(&mut self, event: RenderEvent)
        requires
            accepts(old(self).state, event),
            is_provider_call(event) ==> old(self).calls < u64::MAX,
        ensures
            final(self).state == next_state(old(self).state, event),
            final(self).calls == old(self).calls + (if is_provider_call(event) {
                1int
            } else {
                0int
            }),
            final(self).github_username == old(self).github_username,
    {
        match event {
            RenderEvent::CompileOk => {
                self.state = RenderState::TemplateCompiled;
            },
            RenderEvent::CompileFail => {
                self.state = RenderState::Failed;
            },
            RenderEvent::EvalStart => {
                self.state = RenderState::Evaluating;
            },
            RenderEvent::CallOk => {
                self.calls = self.calls + 1;
            },
            RenderEvent::CallFail => {
                self.calls = self.calls + 1;
                self.state = RenderState::Failed;
            },
            RenderEvent::EvalDone => {
                self.state = RenderState::Completed;
            },
        }
    }

    /// Whether the render pass ended successfully. A pass that failed at any
    /// point never reports success.
    pub fn succeeded(&self) -> (b: bool)
        ensures
            b == (self.state == RenderState::Completed),
    {
        match self.state {
            RenderState::Completed => true,
            _ => false,
        }
    }
}

} // verus!
