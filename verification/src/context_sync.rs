//! Synchronising the context of a workflow with an outside store: what is read
//! before a run and what is written back after it.
use vstd::prelude::*;

use crate::error::{ErrorView, WorkflowError};
use crate::json::{is_read_as, json_reading, json_writing, parse_json, reads_back, MAX_LEVELS};
use crate::run::after_fetch;
use crate::string_map::{assoc, Duplicate};
use crate::text::{
    cat2, has_prefix, replace, replace_text, replacing_goes_from_left_to_right, texts,
};
use crate::value::{Json, JsonView};
use crate::workflow::WorkFlow;

verus! {

/// What is read before a workflow starts.
#[derive(Debug)]
pub struct FetchConfig {
    pub namespace: String,
    pub fields: Vec<String>,
    pub structured: bool,
}

/// What is written back after a workflow has completed.
#[derive(Debug)]
pub struct PushConfig {
    pub from_context: String,
    pub to_namespace: String,
    pub to_field: String,
    pub alias: Option<String>,
    pub structured: bool,
}

/// Whether a context is synchronised, and by which rules.
#[derive(Debug)]
pub struct ContextSyncConfig {
    pub enabled: bool,
    pub fetch_on_start: Vec<FetchConfig>,
    pub push_on_complete: Vec<PushConfig>,
}

/// What a reading rule holds.
#[verifier::ext_equal]
pub struct FetchView {
    pub namespace: Seq<char>,
    pub fields: Seq<Seq<char>>,
    pub structured: bool,
}

/// What a writing rule holds.
#[verifier::ext_equal]
pub struct PushView {
    pub from_context: Seq<char>,
    pub to_namespace: Seq<char>,
    pub to_field: Seq<char>,
    pub alias: Option<Seq<char>>,
    pub structured: bool,
}

/// What the rules hold.
#[verifier::ext_equal]
pub struct SyncView {
    pub enabled: bool,
    pub fetch: Seq<FetchView>,
    pub push: Seq<PushView>,
}

/// The characters of an optional text.
pub open spec fn text_option(o: Option<String>) -> Option<Seq<char>> {
    match o {
        Some(s) => Some(s@),
        None => None,
    }
}

/// A copy of an optional text.
pub fn copy_text_option(o: &Option<String>) -> (r: Option<String>)
    ensures
        text_option(r) == text_option(*o),
{
    match o {
        Some(s) => Some(s.clone()),
        None => None,
    }
}

/// A copy of a list of texts.
pub fn copy_texts(v: &Vec<String>) -> (r: Vec<String>)
    ensures
        texts(r@) == texts(v@),
{
    let mut out: Vec<String> = Vec::new();
    let mut i: usize = 0;
    while i < v.len()
        invariant
            i <= v@.len(),
            out@.len() == i,
            forall|j: int| 0 <= j < i ==> (#[trigger] out@[j])@ == v@[j]@,
        decreases v@.len() - i,
    {
        out.push(v[i].clone());
        i = i + 1;
    }
    proof {
        assert(texts(out@) =~= texts(v@));
    }
    out
}

impl View for FetchConfig {
    type V = FetchView;

    open spec fn view(&self) -> FetchView {
        FetchView {
            namespace: self.namespace@,
            fields: texts(self.fields@),
            structured: self.structured,
        }
    }
}

impl View for PushConfig {
    type V = PushView;

    open spec fn view(&self) -> PushView {
        PushView {
            from_context: self.from_context@,
            to_namespace: self.to_namespace@,
            to_field: self.to_field@,
            alias: text_option(self.alias),
            structured: self.structured,
        }
    }
}

impl View for ContextSyncConfig {
    type V = SyncView;

    open spec fn view(&self) -> SyncView {
        SyncView {
            enabled: self.enabled,
            fetch: Seq::new(self.fetch_on_start@.len(), |i: int| self.fetch_on_start@[i]@),
            push: Seq::new(self.push_on_complete@.len(), |i: int| self.push_on_complete@[i]@),
        }
    }
}

impl Default for ContextSyncConfig {
    fn default() -> (r: ContextSyncConfig)
        ensures
            r@ == (SyncView { enabled: false, fetch: Seq::empty(), push: Seq::empty() }),
    {
        ContextSyncConfig {
            enabled: false,
            fetch_on_start: Vec::new(),
            push_on_complete: Vec::new(),
        }
    }
}

impl Duplicate for FetchConfig {
    fn duplicate(&self) -> (r: FetchConfig) {
        FetchConfig {
            namespace: self.namespace.clone(),
            fields: copy_texts(&self.fields),
            structured: self.structured,
        }
    }
}

impl Duplicate for PushConfig {
    fn duplicate(&self) -> (r: PushConfig) {
        PushConfig {
            from_context: self.from_context.clone(),
            to_namespace: self.to_namespace.clone(),
            to_field: self.to_field.clone(),
            alias: copy_text_option(&self.alias),
            structured: self.structured,
        }
    }
}

impl Duplicate for ContextSyncConfig {
    fn duplicate(&self) -> (r: ContextSyncConfig) {
        let mut fetch: Vec<FetchConfig> = Vec::new();
        let mut i: usize = 0;
        while i < self.fetch_on_start.len()
            invariant
                i <= self.fetch_on_start@.len(),
                fetch@.len() == i,
                forall|j: int|
                    0 <= j < i ==> (#[trigger] fetch@[j])@ == self.fetch_on_start@[j]@,
            decreases self.fetch_on_start@.len() - i,
        {
            fetch.push(self.fetch_on_start[i].duplicate());
            i = i + 1;
        }
        let mut push: Vec<PushConfig> = Vec::new();
        let mut k: usize = 0;
        while k < self.push_on_complete.len()
            invariant
                k <= self.push_on_complete@.len(),
                push@.len() == k,
                forall|j: int|
                    0 <= j < k ==> (#[trigger] push@[j])@ == self.push_on_complete@[j]@,
            decreases self.push_on_complete@.len() - k,
        {
            push.push(self.push_on_complete[k].duplicate());
            k = k + 1;
        }
        let r = ContextSyncConfig {
            enabled: self.enabled,
            fetch_on_start: fetch,
            push_on_complete: push,
        };
        proof {
            assert(r@.fetch =~= self@.fetch);
            assert(r@.push =~= self@.push);
        }
        r
    }
}

/// One read from the outside store.
#[derive(Debug)]
pub struct FetchRequest {
    pub namespace: String,
    pub field: String,
    pub structured: bool,
}

/// What a read asks for.
#[verifier::ext_equal]
pub struct FetchRequestView {
    pub namespace: Seq<char>,
    pub field: Seq<char>,
    pub structured: bool,
}

impl View for FetchRequest {
    type V = FetchRequestView;

    open spec fn view(&self) -> FetchRequestView {
        FetchRequestView {
            namespace: self.namespace@,
            field: self.field@,
            structured: self.structured,
        }
    }
}

/// What a read brought.
#[derive(Debug)]
pub enum Fetched {
    /// A text.
    Text(String),
    /// A structured value.
    Structured(Json),
    /// Nothing: the read failed.
    Failed,
}

/// What is handed to the outside store.
#[derive(Debug)]
pub enum PushBody {
    /// The compact JSON text of a context value.
    Text(String),
    /// A context value itself.
    Structured(Json),
}

/// What is handed to the outside store.
#[verifier::ext_equal]
pub enum PushBodyView {
    Text(Seq<char>),
    Structured(JsonView),
}

/// One write to the outside store.
#[derive(Debug)]
pub struct PushRequest {
    pub namespace: String,
    pub field: String,
    pub alias: Option<String>,
    pub body: PushBody,
}

/// What a write holds.
#[verifier::ext_equal]
pub struct PushRequestView {
    pub namespace: Seq<char>,
    pub field: Seq<char>,
    pub alias: Option<Seq<char>>,
    pub body: PushBodyView,
}

impl View for PushRequest {
    type V = PushRequestView;

    open spec fn view(&self) -> PushRequestView {
        PushRequestView {
            namespace: self.namespace@,
            field: self.field@,
            alias: text_option(self.alias),
            body: match self.body {
                PushBody::Text(s) => PushBodyView::Text(s@),
                PushBody::Structured(v) => PushBodyView::Structured(v@),
            },
        }
    }
}

/// A namespace template with its two placeholders filled in, the user's first.
pub open spec fn interpolated(raw: Seq<char>, user: Seq<char>, session: Seq<char>) -> Seq<char> {
    replace_text(replace_text(raw, "{user_id}"@, user), "{session_id}"@, session)
}

/// The reads of one rule: its fields in order.
pub open spec fn requests_of(f: FetchView, user: Seq<char>, session: Seq<char>) -> Seq<
    FetchRequestView,
> {
    Seq::new(
        f.fields.len(),
        |i: int|
            FetchRequestView {
                namespace: interpolated(f.namespace, user, session),
                field: f.fields[i],
                structured: f.structured,
            },
    )
}

/// The reads of a list of rules, in order.
pub open spec fn all_requests(rules: Seq<FetchView>, user: Seq<char>, session: Seq<char>) -> Seq<
    FetchRequestView,
>
    decreases rules.len(),
{
    if rules.len() == 0 {
        Seq::empty()
    } else {
        all_requests(rules.drop_last(), user, session) + requests_of(rules.last(), user, session)
    }
}

/// The write of one rule, where the context has the value.
pub open spec fn push_of(
    p: PushView,
    context: Seq<(Seq<char>, JsonView)>,
    user: Seq<char>,
    session: Seq<char>,
) -> Option<PushRequestView> {
    match assoc(context, p.from_context) {
        Some(value) => Some(
            PushRequestView {
                namespace: interpolated(p.to_namespace, user, session),
                field: p.to_field,
                alias: p.alias,
                body: if p.structured {
                    PushBodyView::Structured(value)
                } else {
                    PushBodyView::Text(json_writing(value))
                },
            },
        ),
        None => None,
    }
}

impl SyncView {
    /// The reads before a run.
    pub open spec fn fetches(self, user: Seq<char>, session: Seq<char>) -> Seq<FetchRequestView> {
        if self.enabled {
            all_requests(self.fetch, user, session)
        } else {
            Seq::empty()
        }
    }

    /// The writes of the rules from the number `from` on, in order; a rule whose value
    /// the context lacks has none.
    pub open spec fn pushes_from(
        self,
        context: Seq<(Seq<char>, JsonView)>,
        user: Seq<char>,
        session: Seq<char>,
        from: nat,
    ) -> Seq<PushRequestView>
        decreases self.push.len() - from,
    {
        if !self.enabled || from >= self.push.len() {
            Seq::empty()
        } else {
            let rest = self.pushes_from(context, user, session, from + 1);
            match push_of(self.push[from as int], context, user, session) {
                Some(p) => seq![p] + rest,
                None => rest,
            }
        }
    }

    /// The first write of the rules from the number `from` on, with the number of the
    /// rule after it.
    pub open spec fn next_push(
        self,
        context: Seq<(Seq<char>, JsonView)>,
        user: Seq<char>,
        session: Seq<char>,
        from: nat,
    ) -> Option<(nat, PushRequestView)>
        decreases self.push.len() - from,
    {
        if !self.enabled || from >= self.push.len() {
            None
        } else {
            match push_of(self.push[from as int], context, user, session) {
                Some(p) => Some((from + 1, p)),
                None => self.next_push(context, user, session, from + 1),
            }
        }
    }
}

/// The views of a list of reads.
pub open spec fn fetch_views(v: Seq<FetchRequest>) -> Seq<FetchRequestView> {
    Seq::new(v.len(), |i: int| v[i]@)
}

/// Decides what is read and written for a workflow.
#[derive(Debug)]
pub struct ContextSyncManager {
    pub config: ContextSyncConfig,
}

impl View for ContextSyncManager {
    type V = SyncView;

    open spec fn view(&self) -> SyncView {
        self.config@
    }
}

impl ContextSyncManager {
    /// A manager with the given rules.
    pub fn new(config: ContextSyncConfig) -> (r: ContextSyncManager)
        ensures
            r@ == config@,
    {
        ContextSyncManager { config }
    }

    /// The reads to make before a workflow starts.
    pub fn fetch_on_start(&self, user_id: &str, session_id: &str) -> (r: Vec<FetchRequest>)
        ensures
            fetch_views(r@) == self@.fetches(user_id@, session_id@),
    {
        let mut out: Vec<FetchRequest> = Vec::new();
        proof {
            assert(fetch_views(out@) =~= Seq::empty());
        }
        if !self.config.enabled {
            return out;
        }
        let rules = &self.config.fetch_on_start;
        let mut i: usize = 0;
        proof {
            assert(self@.fetch.take(0) =~= Seq::empty());
        }
        while i < rules.len()
            invariant
                *rules == self.config.fetch_on_start,
                i <= rules@.len(),
                self@.fetch.len() == rules@.len(),
                fetch_views(out@) == all_requests(
                    self@.fetch.take(i as int),
                    user_id@,
                    session_id@,
                ),
            decreases rules@.len() - i,
        {
            let namespace = Self::interpolate(rules[i].namespace.as_str(), user_id, session_id);
            let ghost before = fetch_views(out@);
            let ghost wanted = requests_of(rules@[i as int]@, user_id@, session_id@);
            let mut k: usize = 0;
            proof {
                assert(before + wanted.take(0) =~= before);
            }
            while k < rules[i].fields.len()
                invariant
                    i < rules@.len(),
                    k <= rules@[i as int].fields@.len(),
                    namespace@ == interpolated(
                        rules@[i as int].namespace@,
                        user_id@,
                        session_id@,
                    ),
                    wanted == requests_of(rules@[i as int]@, user_id@, session_id@),
                    fetch_views(out@) == before + wanted.take(k as int),
                decreases rules@[i as int].fields@.len() - k,
            {
                let request = FetchRequest {
                    namespace: namespace.clone(),
                    field: rules[i].fields[k].clone(),
                    structured: rules[i].structured,
                };
                let ghost so_far = fetch_views(out@);
                proof {
                    assert(request@ == wanted[k as int]);
                }
                out.push(request);
                proof {
                    assert(fetch_views(out@) =~= so_far.push(wanted[k as int]));
                    assert((before + wanted.take(k as int)).push(wanted[k as int]) =~= before
                        + wanted.take(k + 1));
                }
                k = k + 1;
            }
            proof {
                assert(wanted.take(k as int) =~= wanted);
                let next = self@.fetch.take(i + 1);
                assert(next.drop_last() =~= self@.fetch.take(i as int));
                assert(next.last() == rules@[i as int]@);
            }
            i = i + 1;
        }
        proof {
            assert(self@.fetch.take(i as int) =~= self@.fetch);
        }
        out
    }

    /// Puts what a read brought into the context; a failed read changes nothing.
    pub fn apply_fetched(workflow: &mut WorkFlow, field: &str, fetched: Fetched)
        ensures
            final(workflow)@ == after_fetch(old(workflow)@, field@, fetched),
    {
        match fetched {
            Fetched::Text(s) => workflow.set_context(field, Json::String(s)),
            Fetched::Structured(v) => workflow.set_context(field, v),
            Fetched::Failed => {},
        }
    }

    /// The next write to make after a workflow has completed, from the rule number
    /// `from` on, and the number of the rule after it. The writes are made in order, up
    /// to the first that fails, whose error is the error of the run.
    pub fn push_on_complete(
        &self,
        workflow: &WorkFlow,
        user_id: &str,
        session_id: &str,
        from: usize,
    ) -> (r: Option<(usize, PushRequest)>)
        ensures
            match r {
                Some((next, request)) => self@.next_push(
                    workflow@.context,
                    user_id@,
                    session_id@,
                    from as nat,
                ) == Some((next as nat, request@)),
                None => self@.next_push(
                    workflow@.context,
                    user_id@,
                    session_id@,
                    from as nat,
                ) is None,
            },
    {
        if !self.config.enabled {
            return None;
        }
        let rules = &self.config.push_on_complete;
        let mut i: usize = from;
        while i < rules.len()
            invariant
                self.config.enabled,
                *rules == self.config.push_on_complete,
                from <= i,
                self@.push.len() == rules@.len(),
                self@.next_push(workflow@.context, user_id@, session_id@, from as nat)
                    == self@.next_push(workflow@.context, user_id@, session_id@, i as nat),
            decreases rules@.len() - i,
        {
            let rule = &rules[i];
            proof {
                assert(self@.push[i as int] == rule@);
            }
            let namespace = Self::interpolate(rule.to_namespace.as_str(), user_id, session_id);
            if let Some(value) = workflow.get_context(rule.from_context.as_str()) {
                let body = if rule.structured {
                    PushBody::Structured(value)
                } else {
                    PushBody::Text(value.to_text())
                };
                let request = PushRequest {
                    namespace,
                    field: rule.to_field.clone(),
                    alias: copy_text_option(&rule.alias),
                    body,
                };
                return Some((i + 1, request));
            }
            i = i + 1;
        }
        None
    }

    /// Fills the placeholders `{user_id}` and `{session_id}` of a namespace template.
    pub fn interpolate(raw: &str, user_id: &str, session_id: &str) -> (r: String)
        ensures
            r@ == interpolated(raw@, user_id@, session_id@),
    {
        proof {
            reveal_strlit("{user_id}");
            reveal_strlit("{session_id}");
        }
        let user = replace(raw, "{user_id}", user_id);
        replace(user.as_str(), "{session_id}", session_id)
    }
}

impl Duplicate for ContextSyncManager {
    fn duplicate(&self) -> (r: ContextSyncManager) {
        ContextSyncManager { config: self.config.duplicate() }
    }
}

/// Reads a structured value out of the text that the outside store keeps.
pub fn structured_from_text(text: &str) -> (r: Result<Json, WorkflowError>)
    ensures
        match r {
            Ok(v) => json_reading(text@) == Ok::<JsonView, Seq<char>>(v@),
            Err(e) => json_reading(text@) is Err && e@ == ErrorView::Other(
                "structured context parse failed: "@ + json_reading(text@)->Err_0,
            ),
        },
{
    match parse_json(text) {
        Ok(v) => Ok(v),
        Err(e) => Err(
            WorkflowError::Other(cat2("structured context parse failed: ", e.as_str())),
        ),
    }
}

/// The text under which the outside store keeps a structured value. It is read as
/// the value again, but for doubles and for what is nested too deep.
pub fn structured_to_text(value: &Json) -> (r: String)
    ensures
        r@ == json_writing(value@),
        reads_back(value@, MAX_LEVELS as nat) ==> is_read_as(r@, value@),
{
    value.to_text()
}

/// Making the next write and going on from the rule after it makes every write of the
/// rules once, in order.
pub proof fn next_push_goes_through_all(
    sync: SyncView,
    context: Seq<(Seq<char>, JsonView)>,
    user: Seq<char>,
    session: Seq<char>,
    from: nat,
)
    ensures
        match sync.next_push(context, user, session, from) {
            Some((next, push)) => sync.pushes_from(context, user, session, from) == seq![push]
                + sync.pushes_from(context, user, session, next),
            None => sync.pushes_from(context, user, session, from).len() == 0,
        },
    decreases sync.push.len() - from,
{
    if sync.enabled && from < sync.push.len() {
        next_push_goes_through_all(sync, context, user, session, from + 1);
    }
}

/// A template without placeholders is left as it is.
pub proof fn interpolate_plain(raw: Seq<char>, user: Seq<char>, session: Seq<char>)
    requires
        !crate::text::contains_text(raw, "{user_id}"@),
        !crate::text::contains_text(raw, "{session_id}"@),
    ensures
        interpolated(raw, user, session) == raw,
{
    reveal_strlit("{user_id}");
    reveal_strlit("{session_id}");
    crate::text::replace_nothing(raw, "{user_id}"@, user);
    crate::text::replace_nothing(raw, "{session_id}"@, session);
}

/// The reads of a list of rules are those of its first rules, followed by those of the
/// rest; one rule reads its fields, each once and in order, from its own namespace.
pub proof fn reads_go_rule_by_rule(
    first: Seq<FetchView>,
    second: Seq<FetchView>,
    rule: FetchView,
    user: Seq<char>,
    session: Seq<char>,
)
    ensures
        all_requests(first + second, user, session) == all_requests(first, user, session)
            + all_requests(second, user, session),
        all_requests(seq![rule], user, session).len() == rule.fields.len(),
        forall|i: int|
            0 <= i < rule.fields.len() ==> {
                let read = #[trigger] all_requests(seq![rule], user, session)[i];
                &&& read.field == rule.fields[i]
                &&& read.namespace == interpolated(rule.namespace, user, session)
                &&& read.structured == rule.structured
            },
    decreases second.len(),
{
    if second.len() == 0 {
        assert(first + second =~= first);
        assert(all_requests(first, user, session) + all_requests(second, user, session)
            =~= all_requests(first, user, session));
    } else {
        reads_go_rule_by_rule(first, second.drop_last(), rule, user, session);
        assert((first + second).drop_last() =~= first + second.drop_last());
        assert((first + second).last() == second.last());
        assert(all_requests(first + second, user, session) =~= all_requests(first, user, session)
            + all_requests(second, user, session));
    }
    reveal_with_fuel(all_requests, 2);
    assert(seq![rule].drop_last() =~= Seq::empty());
    assert(all_requests(seq![rule], user, session) =~= requests_of(rule, user, session));
}

/// Rules that are switched off read and write nothing; rules that are switched on make
/// their reads.
pub proof fn switched_off_rules_do_nothing(
    sync: SyncView,
    context: Seq<(Seq<char>, JsonView)>,
    user: Seq<char>,
    session: Seq<char>,
    from: nat,
)
    ensures
        !sync.enabled ==> sync.fetches(user, session).len() == 0,
        !sync.enabled ==> sync.next_push(context, user, session, from) is None,
        sync.enabled ==> sync.fetches(user, session) == all_requests(sync.fetch, user, session),
{
}

/// A rule writes exactly where the context has its value: the value itself where the rule
/// is structured and its JSON text where it is not, to the place that the rule names.
pub proof fn rule_writes_its_value(
    rule: PushView,
    context: Seq<(Seq<char>, JsonView)>,
    user: Seq<char>,
    session: Seq<char>,
    value: JsonView,
)
    ensures
        push_of(rule, context, user, session) is Some <==> assoc(context, rule.from_context)
            is Some,
        assoc(context, rule.from_context) == Some(value) ==> {
            let write = push_of(rule, context, user, session)->0;
            &&& write.namespace == interpolated(rule.to_namespace, user, session)
            &&& write.field == rule.to_field
            &&& write.alias == rule.alias
            &&& rule.structured ==> write.body == PushBodyView::Structured(value)
            &&& !rule.structured ==> write.body == PushBodyView::Text(json_writing(value))
        },
{
}

/// The next write is that of the first rule, from the given number on, whose value the
/// context has; there is none exactly where no such rule is left.
pub proof fn next_write_is_the_first_that_can_be_made(
    sync: SyncView,
    context: Seq<(Seq<char>, JsonView)>,
    user: Seq<char>,
    session: Seq<char>,
    from: nat,
)
    requires
        sync.enabled,
    ensures
        match sync.next_push(context, user, session, from) {
            Some((next, write)) => {
                &&& from < next <= sync.push.len()
                &&& push_of(sync.push[next - 1], context, user, session) == Some(write)
                &&& forall|k: int|
                    from <= k < next - 1 ==> assoc(context, (#[trigger] sync.push[k]).from_context)
                        is None
            },
            None => forall|k: int|
                from <= k < sync.push.len() ==> assoc(
                    context,
                    (#[trigger] sync.push[k]).from_context,
                ) is None,
        },
    decreases sync.push.len() - from,
{
    if from < sync.push.len() {
        next_write_is_the_first_that_can_be_made(sync, context, user, session, from + 1);
        assert(sync.push[from as int].from_context == sync.push[from as int].from_context);
    }
}

spec fn without_braces(s: Seq<char>) -> bool {
    forall|i: int| 0 <= i < s.len() ==> #[trigger] s[i] != '{'
}

/// A placeholder in a namespace gives way to the user or the session that it stands for,
/// and the text around it stays; the user is filled in first.
pub proof fn placeholders_are_filled(
    left: Seq<char>,
    right: Seq<char>,
    user: Seq<char>,
    session: Seq<char>,
)
    requires
        forall|i: int| 0 <= i < left.len() ==> #[trigger] left[i] != '{',
        forall|i: int| 0 <= i < right.len() ==> #[trigger] right[i] != '{',
    ensures
        interpolated(left + "{session_id}"@ + right, user, session) == left + session + right,
        interpolated(left + "{user_id}"@ + right, user, session) == replace_text(
            left + user + right,
            "{session_id}"@,
            session,
        ),
        (forall|i: int| 0 <= i < user.len() ==> #[trigger] user[i] != '{') ==> interpolated(
            left + "{user_id}"@ + right,
            user,
            session,
        ) == left + user + right,
{
    reveal_strlit("{user_id}");
    reveal_strlit("{session_id}");
    let u = "{user_id}"@;
    let s = "{session_id}"@;
    assert(u[0] == '{' && s[0] == '{' && u[1] == 'u' && s[1] == 's');
    assert(u.len() == 9 && s.len() == 12);
    plain_text_stays(left, u + right, u, user);
    plain_text_stays(right, Seq::empty(), u, user);
    replacing_goes_from_left_to_right(right, u, user, ' ');
    assert(left + u + right =~= left + (u + right));
    assert(right + Seq::<char>::empty() =~= right);
    assert(left + (user + right) =~= left + user + right);
    plain_text_stays(left, s + right, u, user);
    let t = s + right;
    assert(t =~= seq!['{'] + t.skip(1));
    assert(t.skip(1)[0] == 's');
    assert(!has_prefix(seq!['{'] + t.skip(1), u)) by {
        if has_prefix(t, u) {
            assert(t.take(9)[1] == u[1]);
        }
    }
    replacing_goes_from_left_to_right(t.skip(1), u, user, '{');
    let rest = t.skip(1);
    assert forall|i: int| 0 <= i < rest.len() implies #[trigger] rest[i] != '{' by {
        if i < 11 {
            assert(rest[i] == s[i + 1]);
        } else {
            assert(rest[i] == right[i - 11]);
        }
    }
    plain_text_stays(rest, Seq::empty(), u, user);
    assert(rest + Seq::<char>::empty() =~= rest);
    assert(left + s + right =~= left + t);
    assert(replace_text(left + s + right, u, user) == left + s + right);
    plain_text_stays(left, s + right, s, session);
    plain_text_stays(right, Seq::empty(), s, session);
    replacing_goes_from_left_to_right(right, s, session, ' ');
    assert(left + s + right =~= left + (s + right));
    assert(left + (session + right) =~= left + session + right);
    if without_braces(user) {
        let filled = left + user + right;
        assert forall|i: int| 0 <= i < filled.len() implies #[trigger] filled[i] != '{' by {
            if i < left.len() {
                assert(filled[i] == left[i]);
            } else if i < left.len() + user.len() {
                assert(filled[i] == user[i - left.len()]);
            } else {
                assert(filled[i] == right[i - left.len() - user.len()]);
            }
        }
        plain_text_stays(filled, Seq::empty(), s, session);
        assert(filled + Seq::<char>::empty() =~= filled);
    }
}

proof fn plain_text_stays(s: Seq<char>, rest: Seq<char>, p: Seq<char>, r: Seq<char>)
    requires
        without_braces(s),
        p.len() > 0,
        p[0] == '{',
    ensures
        replace_text(s + rest, p, r) == s + replace_text(rest, p, r),
        rest.len() == 0 ==> replace_text(s + rest, p, r) == s,
    decreases s.len(),
{
    replacing_goes_from_left_to_right(Seq::empty(), p, r, ' ');
    if rest.len() == 0 {
        assert(rest =~= Seq::empty());
    }
    if s.len() == 0 {
        assert(s + rest =~= rest);
        assert(s + replace_text(rest, p, r) =~= replace_text(rest, p, r));
        assert(rest.len() == 0 ==> s =~= rest);
        if rest.len() == 0 {
            assert(replace_text(rest, p, r) =~= s);
        }
    } else {
        let c = s[0];
        let tail = s.skip(1);
        assert forall|i: int| 0 <= i < tail.len() implies #[trigger] tail[i] != '{' by {
            assert(s[i + 1] != '{');
        }
        plain_text_stays(tail, rest, p, r);
        let whole = seq![c] + (tail + rest);
        assert(s + rest =~= whole);
        assert(!has_prefix(whole, p)) by {
            if has_prefix(whole, p) {
                assert(whole.take(p.len() as int)[0] == p[0]);
            }
        }
        replacing_goes_from_left_to_right(tail + rest, p, r, c);
        assert(seq![c] + (tail + replace_text(rest, p, r)) =~= s + replace_text(rest, p, r));
        if rest.len() == 0 {
            assert(seq![c] + tail =~= s);
        }
    }
}

} // verus!
