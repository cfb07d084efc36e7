//! The parameter bus: what the nodes of a workflow hand to each other.
//!
//! A step parameter holds its last value. A stream parameter keeps every value
//! that was published under it, so that a consumer that subscribes late is given
//! the whole stream, in order.
use vstd::prelude::*;

use crate::error::{option_view, ErrorView, WorkflowError};
use crate::string_map::{
    assoc, assoc_after_insert, assoc_after_update, assoc_insert, assoc_update, keys_of, sorted,
    Duplicate, StringMap,
};
use crate::text::{
    ascii_lowered, is_ascii_text, cat2, cat3, cat4, has_prefix, strip_prefix, text_eq, texts,
    to_lowercase, lowercase,
};
use crate::value::{json_views, Json, JsonView};

verus! {

/// How a parameter passes values on.
#[derive(Clone, Copy, Debug, PartialEq, Eq, Structural)]
pub enum ParameterType {
    /// One value at a time.
    Step,
    /// A stream of values.
    Stream,
}

impl View for ParameterType {
    type V = ParameterType;

    open spec fn view(&self) -> ParameterType {
        *self
    }
}

impl Duplicate for ParameterType {
    fn duplicate(&self) -> (r: ParameterType) {
        *self
    }
}

impl ParameterType {
    /// The type that a lower-case word names.
    pub open spec fn named(word: Seq<char>) -> Option<ParameterType> {
        if word == "step"@ {
            Some(ParameterType::Step)
        } else if word == "stream"@ {
            Some(ParameterType::Stream)
        } else {
            None
        }
    }

    /// The name of the variant.
    pub open spec fn variant(self) -> Seq<char> {
        match self {
            ParameterType::Step => "Step"@,
            ParameterType::Stream => "Stream"@,
        }
    }

    /// The type that a lower-case word names.
    pub fn from_lowered(word: &str) -> (r: Option<ParameterType>)
        ensures
            r == ParameterType::named(word@),
    {
        if text_eq(word, "step") {
            Some(ParameterType::Step)
        } else if text_eq(word, "stream") {
            Some(ParameterType::Stream)
        } else {
            None
        }
    }

    /// The type that a word names, in any case.
    pub fn from_str(s: &str) -> (r: Result<ParameterType, WorkflowError>)
        ensures
            match r {
                Ok(t) => ParameterType::named(lowercase(s@)) == Some(t),
                Err(e) => ParameterType::named(lowercase(s@)) is None && e@
                    == ErrorView::ConfigError(
                    "Invalid parameter type: "@ + s@ + ". Expected 'step' or 'stream'"@,
                ),
            },
            is_ascii_text(s@) ==> lowercase(s@) == ascii_lowered(s@),
    {
        let word = to_lowercase(s);
        match ParameterType::from_lowered(word.as_str()) {
            Some(t) => Ok(t),
            None => Err(
                WorkflowError::ConfigError(
                    cat3("Invalid parameter type: ", s, ". Expected 'step' or 'stream'"),
                ),
            ),
        }
    }

    /// The word that names the type.
    pub fn as_str(&self) -> (r: &'static str)
        ensures
            r@ == (match *self {
                ParameterType::Step => "step"@,
                ParameterType::Stream => "stream"@,
            }),
            ParameterType::named(r@) == Some(*self),
    {
        proof {
            reveal_strlit("step");
            reveal_strlit("stream");
            assert("step"@.len() != "stream"@.len());
        }
        match self {
            ParameterType::Step => "step",
            ParameterType::Stream => "stream",
        }
    }

    fn variant_text(&self) -> (r: &'static str)
        ensures
            r@ == self.variant(),
    {
        match self {
            ParameterType::Step => "Step",
            ParameterType::Stream => "Stream",
        }
    }
}

/// The value of a step parameter, where it has one.
#[derive(Debug)]
pub struct StepParameter {
    pub value: Option<Json>,
}

impl View for StepParameter {
    type V = Option<JsonView>;

    open spec fn view(&self) -> Option<JsonView> {
        option_view(self.value)
    }
}

/// The values published under a stream parameter.
#[derive(Debug)]
pub struct StreamHistory {
    pub items: Vec<Json>,
}

impl View for StreamHistory {
    type V = Seq<JsonView>;

    open spec fn view(&self) -> Seq<JsonView> {
        json_views(self.items@)
    }
}

/// The mark that a consumer has subscribed.
#[derive(Clone, Copy, Debug)]
pub struct Subscribed;

impl View for Subscribed {
    type V = ();

    open spec fn view(&self) -> () {
        ()
    }
}

/// The parameters of a workflow, keyed by node name, dot, parameter name.
#[derive(Debug)]
pub struct ParameterBus {
    pub step_params: StringMap<StepParameter>,
    pub stream_subscribers: StringMap<StringMap<Subscribed>>,
    pub stream_history: StringMap<StreamHistory>,
    pub param_types: StringMap<ParameterType>,
}

/// What the bus holds.
#[verifier::ext_equal]
pub struct BusView {
    pub steps: Seq<(Seq<char>, Option<JsonView>)>,
    pub subscribers: Seq<(Seq<char>, Seq<(Seq<char>, ())>)>,
    pub history: Seq<(Seq<char>, Seq<JsonView>)>,
    pub types: Seq<(Seq<char>, ParameterType)>,
}

impl View for ParameterBus {
    type V = BusView;

    open spec fn view(&self) -> BusView {
        BusView {
            steps: self.step_params@,
            subscribers: self.stream_subscribers@,
            history: self.stream_history@,
            types: self.param_types@,
        }
    }
}

/// The key of a node's parameter.
pub open spec fn param_key(node: Seq<char>, param: Seq<char>) -> Seq<char> {
    node + "."@ + param
}

/// The values published under a key so far.
pub open spec fn published(b: BusView, key: Seq<char>) -> Seq<JsonView> {
    match assoc(b.history, key) {
        Some(h) => h,
        None => Seq::empty(),
    }
}

/// The consumers that have subscribed to a key.
pub open spec fn consumers(b: BusView, key: Seq<char>) -> Seq<(Seq<char>, ())> {
    match assoc(b.subscribers, key) {
        Some(s) => s,
        None => Seq::empty(),
    }
}

impl BusView {
    /// A bus without parameters.
    pub open spec fn empty() -> BusView {
        BusView {
            steps: Seq::empty(),
            subscribers: Seq::empty(),
            history: Seq::empty(),
            types: Seq::empty(),
        }
    }

    /// Every step parameter has a place for its value, and the keys are sorted, as are
    /// the consumers of each key, so that none is there twice.
    pub open spec fn wf(self) -> bool {
        &&& sorted(self.steps)
        &&& sorted(self.subscribers)
        &&& sorted(self.history)
        &&& sorted(self.types)
        &&& forall|key: Seq<char>| sorted(#[trigger] consumers(self, key))
        &&& forall|key: Seq<char>| #[trigger]
            assoc(self.types, key) == Some(ParameterType::Step) ==> assoc(self.steps, key) is Some
    }

    /// The bus with one more declared parameter: a step parameter without a value,
    /// or a stream parameter that keeps what was published under its key.
    pub open spec fn declare(self, key: Seq<char>, t: ParameterType) -> BusView {
        match t {
            ParameterType::Step => BusView {
                steps: assoc_insert(self.steps, key, None),
                types: assoc_insert(self.types, key, t),
                ..self
            },
            ParameterType::Stream => BusView {
                history: if assoc(self.history, key) is Some {
                    self.history
                } else {
                    assoc_insert(self.history, key, Seq::empty())
                },
                types: assoc_insert(self.types, key, t),
                ..self
            },
        }
    }

    /// The bus with the parameters of a node declared, one after the other.
    pub open spec fn declare_all(
        self,
        node: Seq<char>,
        params: Seq<(Seq<char>, ParameterType)>,
    ) -> BusView
        decreases params.len(),
    {
        if params.len() == 0 {
            self
        } else {
            self.declare_all(node, params.drop_last()).declare(
                param_key(node, params.last().0),
                params.last().1,
            )
        }
    }

    /// Why a value cannot be set at a key, if it cannot.
    pub open spec fn set_error(self, key: Seq<char>) -> Option<ErrorView> {
        match assoc(self.types, key) {
            None => Some(ErrorView::ParameterNotFound(key)),
            Some(ParameterType::Step) => if assoc(self.steps, key) is Some {
                None
            } else {
                Some(ErrorView::ParameterNotFound(key))
            },
            Some(ParameterType::Stream) => None,
        }
    }

    /// The bus after a value was set at a key.
    pub open spec fn set(self, key: Seq<char>, value: JsonView) -> BusView {
        match assoc(self.types, key) {
            Some(ParameterType::Step) => BusView {
                steps: assoc_update(self.steps, key, Some(value)),
                ..self
            },
            Some(ParameterType::Stream) => BusView {
                history: if assoc(self.history, key) is Some {
                    assoc_update(self.history, key, published(self, key).push(value))
                } else {
                    assoc_insert(self.history, key, seq![value])
                },
                ..self
            },
            None => self,
        }
    }

    /// The consumers that a value set at a key is sent to.
    pub open spec fn recipients(self, key: Seq<char>) -> Seq<Seq<char>> {
        match assoc(self.types, key) {
            Some(ParameterType::Stream) => keys_of(consumers(self, key)),
            _ => Seq::empty(),
        }
    }

    /// Why a consumer cannot subscribe to a key, if it cannot.
    pub open spec fn subscribe_error(self, key: Seq<char>) -> Option<ErrorView> {
        match assoc(self.types, key) {
            None => Some(ErrorView::ParameterNotFound(key)),
            Some(ParameterType::Stream) => None,
            Some(t) => Some(
                ErrorView::ConfigError(
                    "Parameter "@ + key + " must be stream type, but found "@ + t.variant(),
                ),
            ),
        }
    }

    /// The bus after a consumer subscribed to a key.
    pub open spec fn subscribe(self, key: Seq<char>, consumer: Seq<char>) -> BusView {
        BusView {
            subscribers: if assoc(self.subscribers, key) is Some {
                assoc_update(
                    self.subscribers,
                    key,
                    assoc_insert(consumers(self, key), consumer, ()),
                )
            } else {
                assoc_insert(self.subscribers, key, assoc_insert(Seq::empty(), consumer, ()))
            },
            ..self
        }
    }

    /// What reading a key gives: a value, `None` where the reader has to wait for
    /// one, or an error.
    pub open spec fn read(self, key: Seq<char>) -> Result<Option<JsonView>, ErrorView> {
        match assoc(self.types, key) {
            None => Err(ErrorView::ParameterNotFound(key)),
            Some(ParameterType::Stream) => Err(
                ErrorView::ConfigError(
                    "Stream parameters should be accessed via registered receiver"@,
                ),
            ),
            Some(ParameterType::Step) => match assoc(self.steps, key) {
                Some(v) => Ok(v),
                None => Err(ErrorView::ParameterNotFound(key)),
            },
        }
    }

    /// The values of a node's step parameters, by parameter name.
    pub open spec fn results(self, node: Seq<char>) -> Seq<(Seq<char>, JsonView)> {
        collect_results(self.steps, self.types, node + "."@)
    }
}

/// The step values whose keys have the prefix, by what follows the prefix.
pub open spec fn collect_results(
    steps: Seq<(Seq<char>, Option<JsonView>)>,
    types: Seq<(Seq<char>, ParameterType)>,
    prefix: Seq<char>,
) -> Seq<(Seq<char>, JsonView)>
    decreases steps.len(),
{
    if steps.len() == 0 {
        Seq::empty()
    } else {
        let before = collect_results(steps.drop_last(), types, prefix);
        let (key, value) = steps.last();
        if has_prefix(key, prefix) && assoc(types, key) == Some(ParameterType::Step)
            && value is Some {
            assoc_insert(before, key.skip(prefix.len() as int), value->0)
        } else {
            before
        }
    }
}

impl ParameterBus {
    /// A bus without parameters.
    pub fn new() -> (r: ParameterBus)
        ensures
            r@ == BusView::empty(),
            r@.wf(),
    {
        ParameterBus {
            step_params: StringMap::new(),
            stream_subscribers: StringMap::new(),
            stream_history: StringMap::new(),
            param_types: StringMap::new(),
        }
    }

    fn declare(&mut self, key: String, t: ParameterType)
        ensures
            final(self)@ == old(self)@.declare(key@, t),
    {
        match t {
            ParameterType::Step => {
                self.step_params.insert(key.clone(), StepParameter { value: None });
            },
            ParameterType::Stream => {
                if !self.stream_history.contains_key(key.as_str()) {
                    let empty = StreamHistory { items: Vec::new() };
                    proof {
                        assert(empty@ =~= Seq::<JsonView>::empty());
                    }
                    self.stream_history.insert(key.clone(), empty);
                }
            },
        }
        self.param_types.insert(key, t);
    }

    /// Declares the output parameters of a node.
    pub fn init_output_parameters(
        &mut self,
        node_name: &str,
        output_params: &StringMap<ParameterType>,
    )
        ensures
            final(self)@ == old(self)@.declare_all(node_name@, output_params@),
    {
        let mut i: usize = 0;
        proof {
            assert(output_params@.take(0) =~= Seq::empty());
        }
        while i < output_params.len()
            invariant
                i <= output_params@.len(),
                self@ == old(self)@.declare_all(node_name@, output_params@.take(i as int)),
            decreases output_params@.len() - i,
        {
            let key = cat3(node_name, ".", output_params.key_at(i));
            let t: ParameterType = *output_params.value_at(i);
            proof {
                let next = output_params@.take(i + 1);
                assert(next.drop_last() =~= output_params@.take(i as int));
                assert(next.last() == output_params@[i as int]);
            }
            self.declare(key, t);
            i = i + 1;
        }
        proof {
            assert(output_params@.take(i as int) =~= output_params@);
        }
    }

    /// Subscribes a consumer to a stream parameter. The values returned were
    /// published before; the consumer is to be sent them first.
    pub fn register_stream_subscriber(&mut self, param_key: &str, consumer_node: &str) -> (r: Result<
        Vec<Json>,
        WorkflowError,
    >)
        ensures
            match r {
                Ok(replay) => {
                    &&& old(self)@.subscribe_error(param_key@) is None
                    &&& json_views(replay@) == published(old(self)@, param_key@)
                    &&& final(self)@ == old(self)@.subscribe(param_key@, consumer_node@)
                },
                Err(e) => {
                    &&& old(self)@.subscribe_error(param_key@) == Some(e@)
                    &&& final(self)@ == old(self)@
                },
            },
    {
        match self.param_types.get(param_key) {
            None => {
                return Err(WorkflowError::ParameterNotFound(param_key.to_owned()));
            },
            Some(t) => {
                if *t != ParameterType::Stream {
                    return Err(
                        WorkflowError::ConfigError(
                            cat4(
                                "Parameter ",
                                param_key,
                                " must be stream type, but found ",
                                t.variant_text(),
                            ),
                        ),
                    );
                }
            },
        }
        let ghost before = self@;
        if self.stream_subscribers.contains_key(param_key) {
            match self.stream_subscribers.get_mut(param_key) {
                Some(known) => {
                    known.insert(consumer_node.to_owned(), Subscribed);
                },
                None => {},
            }
        } else {
            let mut known: StringMap<Subscribed> = StringMap::new();
            known.insert(consumer_node.to_owned(), Subscribed);
            self.stream_subscribers.insert(param_key.to_owned(), known);
        }
        let replay: Vec<Json> = match self.stream_history.get(param_key) {
            Some(history) => copy_values(&history.items),
            None => Vec::new(),
        };
        proof {
            assert(json_views(replay@) =~= published(before, param_key@));
        }
        Ok(replay)
    }

    /// Sets the value of a node's parameter. A stream value is to be sent to the
    /// consumers returned; after a step value those who wait for it can read it.
    pub fn set_value(&mut self, node_name: &str, param_name: &str, value: Json) -> (r: Result<
        Vec<String>,
        WorkflowError,
    >)
        ensures
            ({
                let key = param_key(node_name@, param_name@);
                match r {
                    Ok(to) => {
                        &&& old(self)@.set_error(key) is None
                        &&& texts(to@) == old(self)@.recipients(key)
                        &&& final(self)@ == old(self)@.set(key, value@)
                    },
                    Err(e) => {
                        &&& old(self)@.set_error(key) == Some(e@)
                        &&& final(self)@ == old(self)@
                    },
                }
            }),
    {
        let key = cat3(node_name, ".", param_name);
        let t: ParameterType = match self.param_types.get(key.as_str()) {
            None => {
                return Err(WorkflowError::ParameterNotFound(key));
            },
            Some(t) => *t,
        };
        match t {
            ParameterType::Step => {
                match self.step_params.get_mut(key.as_str()) {
                    Some(param) => {
                        param.value = Some(value);
                    },
                    None => {
                        return Err(WorkflowError::ParameterNotFound(key));
                    },
                }
                let none: Vec<String> = Vec::new();
                proof {
                    assert(texts(none@) =~= Seq::<Seq<char>>::empty());
                }
                Ok(none)
            },
            ParameterType::Stream => {
                let ghost v = value@;
                if self.stream_history.contains_key(key.as_str()) {
                    match self.stream_history.get_mut(key.as_str()) {
                        Some(history) => {
                            let ghost items = history@;
                            history.items.push(value);
                            proof {
                                assert(history@ =~= items.push(v));
                            }
                        },
                        None => {},
                    }
                } else {
                    let mut items: Vec<Json> = Vec::new();
                    items.push(value);
                    let history = StreamHistory { items };
                    proof {
                        assert(history@ =~= seq![v]);
                    }
                    self.stream_history.insert(key.clone(), history);
                }
                let to: Vec<String> = match self.stream_subscribers.get(key.as_str()) {
                    Some(known) => known.keys(),
                    None => Vec::new(),
                };
                proof {
                    assert(texts(to@) =~= old(self)@.recipients(key@));
                }
                Ok(to)
            },
        }
    }

    /// Reads a step parameter: its value, or `None` where the reader has to wait.
    pub fn get_value(&self, param_key: &str) -> (r: Result<Option<Json>, WorkflowError>)
        ensures
            match r {
                Ok(v) => self@.read(param_key@) == Ok::<Option<JsonView>, ErrorView>(
                    option_view(v),
                ),
                Err(e) => self@.read(param_key@) == Err::<Option<JsonView>, ErrorView>(e@),
            },
    {
        match self.param_types.get(param_key) {
            None => Err(WorkflowError::ParameterNotFound(param_key.to_owned())),
            Some(ParameterType::Stream) => Err(
                WorkflowError::ConfigError(
                    "Stream parameters should be accessed via registered receiver".to_owned(),
                ),
            ),
            Some(ParameterType::Step) => match self.step_params.get(param_key) {
                None => Err(WorkflowError::ParameterNotFound(param_key.to_owned())),
                Some(param) => match &param.value {
                    Some(v) => Ok(Some(v.copy())),
                    None => Ok(None),
                },
            },
        }
    }

    /// Reads a step parameter for a reader that was told that it was set.
    pub fn get_notified_value(&self, param_key: &str) -> (r: Result<Json, WorkflowError>)
        ensures
            match r {
                Ok(v) => assoc(self@.steps, param_key@) == Some(Some(v@)),
                Err(e) => match assoc(self@.steps, param_key@) {
                    Some(v) => v is None && e@ == ErrorView::Other(
                        "Parameter "@ + param_key@ + " value is None"@,
                    ),
                    None => e@ == ErrorView::ParameterNotFound(param_key@),
                },
            },
    {
        match self.step_params.get(param_key) {
            None => Err(WorkflowError::ParameterNotFound(param_key.to_owned())),
            Some(param) => match &param.value {
                Some(v) => Ok(v.copy()),
                None => Err(
                    WorkflowError::Other(cat3("Parameter ", param_key, " value is None")),
                ),
            },
        }
    }

    /// The values of a node's step parameters, by parameter name.
    pub fn get_node_results(&self, node_name: &str) -> (r: StringMap<Json>)
        ensures
            r@ == self@.results(node_name@),
            r.wf(),
    {
        let prefix = cat2(node_name, ".");
        let mut results: StringMap<Json> = StringMap::new();
        let mut i: usize = 0;
        proof {
            assert(self@.steps.take(0) =~= Seq::empty());
        }
        while i < self.step_params.len()
            invariant
                i <= self@.steps.len(),
                prefix@ == node_name@ + "."@,
                results.wf(),
                results@ == collect_results(self@.steps.take(i as int), self@.types, prefix@),
            decreases self@.steps.len() - i,
        {
            proof {
                let next = self@.steps.take(i + 1);
                assert(next.drop_last() =~= self@.steps.take(i as int));
                assert(next.last() == self@.steps[i as int]);
            }
            let key = self.step_params.key_at(i);
            if let Some(name) = strip_prefix(key, prefix.as_str()) {
                if let Some(ParameterType::Step) = self.param_types.get(key) {
                    if let Some(value) = &self.step_params.value_at(i).value {
                        results.insert(name, value.copy());
                    }
                }
            }
            i = i + 1;
        }
        proof {
            assert(self@.steps.take(i as int) =~= self@.steps);
        }
        results
    }

    /// Whether a parameter is declared.
    pub fn check_parameter(&self, param_key: &str) -> (r: bool)
        ensures
            r == (assoc(self@.types, param_key@) is Some),
    {
        self.param_types.contains_key(param_key)
    }

    /// The type of a declared parameter.
    pub fn get_parameter_type(&self, param_key: &str) -> (r: Option<ParameterType>)
        ensures
            r == assoc(self@.types, param_key@),
    {
        match self.param_types.get(param_key) {
            Some(t) => Some(*t),
            None => None,
        }
    }
}

impl Default for ParameterBus {
    fn default() -> (r: ParameterBus)
        ensures
            r@ == BusView::empty(),
    {
        ParameterBus::new()
    }
}

fn copy_values(v: &Vec<Json>) -> (r: Vec<Json>)
    ensures
        json_views(r@) == json_views(v@),
{
    let mut out: Vec<Json> = Vec::new();
    let mut i: usize = 0;
    while i < v.len()
        invariant
            i <= v@.len(),
            out@.len() == i,
            forall|j: int| 0 <= j < i ==> (#[trigger] out@[j])@ == v@[j]@,
        decreases v@.len() - i,
    {
        out.push(v[i].copy());
        i = i + 1;
    }
    proof {
        assert(json_views(out@) =~= json_views(v@));
    }
    out
}

// ---------------------------------------------------------------------------
// Laws
// ---------------------------------------------------------------------------

/// Something that is done with a bus.
pub enum BusOp {
    /// A parameter is declared.
    Declare(Seq<char>, ParameterType),
    /// A consumer subscribes to a key.
    Subscribe(Seq<char>, Seq<char>),
    /// A value is set at a key.
    Write(Seq<char>, JsonView),
}

impl BusView {
    /// The bus after something was done; what is refused changes nothing.
    pub open spec fn after(self, op: BusOp) -> BusView {
        match op {
            BusOp::Declare(key, t) => self.declare(key, t),
            BusOp::Subscribe(key, consumer) => if self.subscribe_error(key) is None {
                self.subscribe(key, consumer)
            } else {
                self
            },
            BusOp::Write(key, value) => if self.set_error(key) is None {
                self.set(key, value)
            } else {
                self
            },
        }
    }

    /// The bus after several things were done, one after the other.
    pub open spec fn after_all(self, ops: Seq<BusOp>) -> BusView
        decreases ops.len(),
    {
        if ops.len() == 0 {
            self
        } else {
            self.after_all(ops.drop_last()).after(ops.last())
        }
    }

    /// The values that are set at a key while it is a stream, in order.
    pub open spec fn streamed(self, ops: Seq<BusOp>, key: Seq<char>) -> Seq<JsonView>
        decreases ops.len(),
    {
        if ops.len() == 0 {
            Seq::empty()
        } else {
            let front = self.streamed(ops.drop_last(), key);
            let now = self.after_all(ops.drop_last());
            match ops.last() {
                BusOp::Write(k, value) => if k == key && assoc(now.types, key) == Some(
                    ParameterType::Stream,
                ) {
                    front.push(value)
                } else {
                    front
                },
                _ => front,
            }
        }
    }

    /// The values of a key that are sent to a consumer, in order.
    pub open spec fn delivered(
        self,
        ops: Seq<BusOp>,
        key: Seq<char>,
        consumer: Seq<char>,
    ) -> Seq<JsonView>
        decreases ops.len(),
    {
        if ops.len() == 0 {
            Seq::empty()
        } else {
            let front = self.delivered(ops.drop_last(), key, consumer);
            let now = self.after_all(ops.drop_last());
            match ops.last() {
                BusOp::Write(k, value) => if k == key && now.set_error(key) is None {
                    front + copies(now.recipients(key), consumer, value)
                } else {
                    front
                },
                _ => front,
            }
        }
    }
}

/// What a consumer gets of a value that is sent to a list of recipients: the value as
/// often as the consumer is in the list.
pub open spec fn copies(to: Seq<Seq<char>>, consumer: Seq<char>, value: JsonView) -> Seq<JsonView>
    decreases to.len(),
{
    if to.len() == 0 {
        Seq::empty()
    } else if to.last() == consumer {
        copies(to.drop_last(), consumer, value).push(value)
    } else {
        copies(to.drop_last(), consumer, value)
    }
}

/// A step value that was set is what a reader gets, whatever was there before, and
/// the other keys are read as before.
pub proof fn read_gives_back_what_was_set(
    b: BusView,
    key: Seq<char>,
    value: JsonView,
    other: Seq<char>,
)
    requires
        assoc(b.types, key) == Some(ParameterType::Step),
        b.set_error(key) is None,
    ensures
        b.set(key, value).read(key) == Ok::<Option<JsonView>, ErrorView>(Some(value)),
        other != key ==> b.set(key, value).read(other) == b.read(other),
{
    assoc_after_update(b.steps, key, Some(value), key);
    assoc_after_update(b.steps, key, Some(value), other);
}

/// Declaring a parameter, setting a value and subscribing keep the bus well formed.
pub proof fn bus_stays_well_formed(
    b: BusView,
    key: Seq<char>,
    t: ParameterType,
    value: JsonView,
    consumer: Seq<char>,
)
    requires
        b.wf(),
    ensures
        b.declare(key, t).wf(),
        b.set(key, value).wf(),
        b.subscribe(key, consumer).wf(),
{
    let d = b.declare(key, t);
    crate::string_map::insert_keeps_sorted(b.types, key, t);
    crate::string_map::insert_keeps_sorted(b.steps, key, None);
    crate::string_map::insert_keeps_sorted(b.history, key, Seq::empty());
    assert forall|k: Seq<char>| #[trigger]
        assoc(d.types, k) == Some(ParameterType::Step) implies assoc(d.steps, k) is Some by {
        assoc_after_insert(b.types, key, t, k);
        assoc_after_insert(b.steps, key, None, k);
        assert(assoc(b.types, k) == Some(ParameterType::Step) ==> assoc(b.steps, k) is Some);
    }
    let s = b.set(key, value);
    if assoc(b.steps, key) is Some {
        crate::string_map::update_is_insert(b.steps, key, Some(value));
    }
    if assoc(b.history, key) is Some {
        crate::string_map::update_is_insert(b.history, key, published(b, key).push(value));
    } else {
        crate::string_map::insert_keeps_sorted(b.history, key, seq![value]);
    }
    assert forall|k: Seq<char>| #[trigger]
        assoc(s.types, k) == Some(ParameterType::Step) implies assoc(s.steps, k) is Some by {
        assoc_after_update(b.steps, key, Some(value), k);
        assert(assoc(b.types, k) == Some(ParameterType::Step) ==> assoc(b.steps, k) is Some);
    }
    assert forall|k: Seq<char>| sorted(#[trigger] consumers(d, k)) by {
        assert(consumers(d, k) == consumers(b, k));
    }
    assert forall|k: Seq<char>| sorted(#[trigger] consumers(s, k)) by {
        assert(consumers(s, k) == consumers(b, k));
    }
    let u = b.subscribe(key, consumer);
    assert forall|k: Seq<char>| sorted(#[trigger] consumers(u, k)) by {
        consumers_after_subscribing(b, key, consumer, k);
        crate::string_map::insert_keeps_sorted(consumers(b, key), consumer, ());
        assert(sorted(consumers(b, k)));
    }
    if assoc(b.subscribers, key) is Some {
        crate::string_map::update_is_insert(
            b.subscribers,
            key,
            assoc_insert(consumers(b, key), consumer, ()),
        );
    } else {
        crate::string_map::insert_keeps_sorted(
            b.subscribers,
            key,
            assoc_insert(Seq::empty(), consumer, ()),
        );
    }
    assert forall|k: Seq<char>| #[trigger]
        assoc(u.types, k) == Some(ParameterType::Step) implies assoc(u.steps, k) is Some by {
        assert(assoc(b.types, k) == Some(ParameterType::Step) ==> assoc(b.steps, k) is Some);
    }
}

/// A bus that is well formed refuses to set a value only where the key is not declared.
pub proof fn declared_parameters_can_be_set(b: BusView, key: Seq<char>)
    requires
        b.wf(),
    ensures
        b.set_error(key) is None <==> assoc(b.types, key) is Some,
{
    assert(assoc(b.types, key) == Some(ParameterType::Step) ==> assoc(b.steps, key) is Some);
}

proof fn consumers_after_subscribing(
    b: BusView,
    key: Seq<char>,
    consumer: Seq<char>,
    other: Seq<char>,
)
    ensures
        consumers(b.subscribe(key, consumer), other) == (if other == key {
            assoc_insert(consumers(b, key), consumer, ())
        } else {
            consumers(b, other)
        }),
{
    let known = consumers(b, key);
    if assoc(b.subscribers, key) is Some {
        assoc_after_update(b.subscribers, key, assoc_insert(known, consumer, ()), other);
    } else {
        assoc_after_insert(
            b.subscribers,
            key,
            assoc_insert(Seq::empty(), consumer, ()),
            other,
        );
    }
}

proof fn no_copies(to: Seq<Seq<char>>, consumer: Seq<char>, value: JsonView)
    requires
        forall|i: int| 0 <= i < to.len() ==> #[trigger] to[i] != consumer,
    ensures
        copies(to, consumer, value).len() == 0,
    decreases to.len(),
{
    if to.len() > 0 {
        assert(to[to.len() - 1] != consumer);
        assert forall|i: int| 0 <= i < to.drop_last().len() implies #[trigger] to.drop_last()[i]
            != consumer by {
            assert(to[i] != consumer);
        }
        no_copies(to.drop_last(), consumer, value);
    }
}

proof fn one_copy(m: Seq<(Seq<char>, ())>, consumer: Seq<char>, value: JsonView, i: int)
    requires
        sorted(m),
        0 <= i < m.len(),
        m[i].0 == consumer,
    ensures
        copies(keys_of(m), consumer, value) == seq![value],
    decreases m.len(),
{
    let front = m.drop_last();
    assert(keys_of(m).drop_last() =~= keys_of(front));
    assert(keys_of(m).last() == m.last().0);
    crate::text::text_less_irreflexive(consumer);
    if i == m.len() - 1 {
        assert forall|j: int| 0 <= j < keys_of(front).len() implies #[trigger] keys_of(front)[j]
            != consumer by {
            assert(crate::text::text_less(m[j].0, m[i].0));
        }
        no_copies(keys_of(front), consumer, value);
        assert(copies(keys_of(front), consumer, value).push(value) =~= seq![value]);
    } else {
        assert(crate::text::text_less(m[i].0, m[m.len() - 1].0));
        assert forall|a: int, b: int| 0 <= a < b < front.len() implies crate::text::text_less(
            #[trigger] front[a].0,
            #[trigger] front[b].0,
        ) by {
            assert(crate::text::text_less(m[a].0, m[b].0));
        }
        one_copy(front, consumer, value, i);
    }
}

/// What was published under a key is what was set there while it was a stream, in
/// order, after what had been published before.
pub proof fn published_is_what_was_streamed(b: BusView, ops: Seq<BusOp>, key: Seq<char>)
    ensures
        published(b.after_all(ops), key) == published(b, key) + b.streamed(ops, key),
    decreases ops.len(),
{
    if ops.len() == 0 {
        assert(published(b, key) + Seq::<JsonView>::empty() =~= published(b, key));
    } else {
        let front = ops.drop_last();
        let mid = b.after_all(front);
        published_is_what_was_streamed(b, front, key);
        match ops.last() {
            BusOp::Declare(k, t) => {
                assoc_after_insert(mid.history, k, Seq::empty(), key);
            },
            BusOp::Subscribe(k, consumer) => {},
            BusOp::Write(k, value) => {
                assoc_after_update(mid.history, k, published(mid, k).push(value), key);
                assoc_after_insert(mid.history, k, seq![value], key);
                assert(Seq::<JsonView>::empty().push(value) =~= seq![value]);
                assert((published(b, key) + b.streamed(front, key)).push(value)
                    =~= published(b, key) + b.streamed(front, key).push(value));
            },
        }
    }
}

/// Whatever is done with a bus keeps it well formed.
pub proof fn bus_stays_well_formed_throughout(b: BusView, ops: Seq<BusOp>)
    requires
        b.wf(),
    ensures
        b.after_all(ops).wf(),
    decreases ops.len(),
{
    if ops.len() > 0 {
        let mid = b.after_all(ops.drop_last());
        bus_stays_well_formed_throughout(b, ops.drop_last());
        match ops.last() {
            BusOp::Declare(k, t) => {
                bus_stays_well_formed(mid, k, t, JsonView::Null, k);
            },
            BusOp::Subscribe(k, consumer) => {
                bus_stays_well_formed(mid, k, ParameterType::Step, JsonView::Null, consumer);
            },
            BusOp::Write(k, value) => {
                bus_stays_well_formed(mid, k, ParameterType::Step, value, k);
            },
        }
    }
}

/// Whether the consumer does not subscribe to the key again and the key stays a stream.
pub open spec fn leaves_subscription(
    ops: Seq<BusOp>,
    key: Seq<char>,
    consumer: Seq<char>,
) -> bool {
    forall|i: int|
        0 <= i < ops.len() ==> (#[trigger] ops[i]) != BusOp::Subscribe(key, consumer) && ops[i]
            != BusOp::Declare(key, ParameterType::Step)
}

/// A consumer that subscribed to a stream gets every value set there from then on, once
/// and in order, whatever else is done with the bus meanwhile; and what it was given on
/// subscribing, followed by those values, is all that was ever published under the key.
pub proof fn late_subscriber_gets_the_whole_stream(
    b: BusView,
    key: Seq<char>,
    consumer: Seq<char>,
    ops: Seq<BusOp>,
)
    requires
        b.wf(),
        b.subscribe_error(key) is None,
        leaves_subscription(ops, key, consumer),
    ensures
        ({
            let joined = b.subscribe(key, consumer);
            &&& joined.delivered(ops, key, consumer) == joined.streamed(ops, key)
            &&& published(b, key) + joined.delivered(ops, key, consumer) == published(
                joined.after_all(ops),
                key,
            )
        }),
{
    let joined = b.subscribe(key, consumer);
    bus_stays_well_formed(b, key, ParameterType::Step, JsonView::Null, consumer);
    consumers_after_subscribing(b, key, consumer, key);
    assoc_after_insert(consumers(b, key), consumer, (), consumer);
    subscription_lasts(joined, key, consumer, ops);
    published_is_what_was_streamed(joined, ops, key);
    assert(published(joined, key) == published(b, key));
}

proof fn subscription_lasts(b: BusView, key: Seq<char>, consumer: Seq<char>, ops: Seq<BusOp>)
    requires
        b.wf(),
        assoc(b.types, key) == Some(ParameterType::Stream),
        assoc(consumers(b, key), consumer) is Some,
        leaves_subscription(ops, key, consumer),
    ensures
        b.after_all(ops).wf(),
        assoc(b.after_all(ops).types, key) == Some(ParameterType::Stream),
        assoc(consumers(b.after_all(ops), key), consumer) is Some,
        b.delivered(ops, key, consumer) == b.streamed(ops, key),
    decreases ops.len(),
{
    bus_stays_well_formed_throughout(b, ops);
    if ops.len() > 0 {
        let front = ops.drop_last();
        let mid = b.after_all(front);
        assert(leaves_subscription(front, key, consumer)) by {
            assert forall|i: int| 0 <= i < front.len() implies (#[trigger] front[i])
                != BusOp::Subscribe(key, consumer) && front[i] != BusOp::Declare(
                key,
                ParameterType::Step,
            ) by {
                assert(ops[i] == front[i]);
            }
        }
        subscription_lasts(b, key, consumer, front);
        let last = ops.last();
        assert(last == ops[ops.len() - 1]);
        match last {
            BusOp::Declare(k, t) => {
                assoc_after_insert(mid.types, k, t, key);
                assert(consumers(mid.declare(k, t), key) == consumers(mid, key));
            },
            BusOp::Subscribe(k, c) => {
                consumers_after_subscribing(mid, k, c, key);
                assoc_after_insert(consumers(mid, k), c, (), consumer);
            },
            BusOp::Write(k, value) => {
                assert(consumers(mid.set(k, value), key) == consumers(mid, key));
                let list = consumers(mid, key);
                assert(sorted(list));
                crate::string_map::assoc_some_iff(list, consumer);
                let i = choose|i: int| 0 <= i < list.len() && (#[trigger] list[i]).0 == consumer;
                one_copy(list, consumer, value, i);
                assert(b.delivered(front, key, consumer) + seq![value] =~= b.delivered(
                    front,
                    key,
                    consumer,
                ).push(value));
            },
        }
    }
}

/// The results of a node hold a parameter name exactly where the node's step
/// parameter of that name has a value, and then hold that value.
pub proof fn results_are_the_step_values(b: BusView, node: Seq<char>, param: Seq<char>)
    requires
        sorted(b.steps),
    ensures
        assoc(b.results(node), param) == (if assoc(b.types, param_key(node, param)) == Some(
            ParameterType::Step,
        ) {
            match assoc(b.steps, param_key(node, param)) {
                Some(v) => v,
                None => None,
            }
        } else {
            None
        }),
{
    let prefix = node + "."@;
    let n = b.steps.len() as int;
    assert(b.steps.take(n) =~= b.steps);
    results_prefix(b.steps, b.types, prefix, param, n);
    assert(prefix + param =~= param_key(node, param));
    let key = param_key(node, param);
    crate::string_map::assoc_some_iff(b.steps, key);
    if exists|i: int| 0 <= i < b.steps.len() && (#[trigger] b.steps[i]).0 == key {
        let i = choose|i: int| 0 <= i < b.steps.len() && (#[trigger] b.steps[i]).0 == key;
        crate::string_map::assoc_of_entry(b.steps, i);
        last_of_key(b.steps, key, i, n);
    } else {
        no_key_before(b.steps, key, n);
    }
}

/// The value of the last entry with the key, among the first `n`.
spec fn last_assoc(m: Seq<(Seq<char>, Option<JsonView>)>, key: Seq<char>, n: int) -> Option<
    Option<JsonView>,
>
    decreases n,
{
    if n <= 0 {
        None
    } else if m[n - 1].0 == key {
        Some(m[n - 1].1)
    } else {
        last_assoc(m, key, n - 1)
    }
}

proof fn last_of_key(m: Seq<(Seq<char>, Option<JsonView>)>, key: Seq<char>, i: int, n: int)
    requires
        sorted(m),
        0 <= i < n <= m.len(),
        m[i].0 == key,
    ensures
        last_assoc(m, key, n) == Some(m[i].1),
    decreases n,
{
    if n - 1 > i {
        assert(crate::text::text_less(m[i].0, m[n - 1].0));
        crate::text::text_less_irreflexive(key);
        last_of_key(m, key, i, n - 1);
    }
}

proof fn results_prefix(
    steps: Seq<(Seq<char>, Option<JsonView>)>,
    types: Seq<(Seq<char>, ParameterType)>,
    prefix: Seq<char>,
    param: Seq<char>,
    n: int,
)
    requires
        sorted(steps),
        0 <= n <= steps.len(),
    ensures
        assoc(collect_results(steps.take(n), types, prefix), param) == (if assoc(
            types,
            prefix + param,
        ) == Some(ParameterType::Step) {
            match last_assoc(steps, prefix + param, n) {
                Some(v) => v,
                None => None,
            }
        } else {
            None
        }),
    decreases n,
{
    let target = prefix + param;
    if n > 0 {
        results_prefix(steps, types, prefix, param, n - 1);
        assert(steps.take(n).drop_last() =~= steps.take(n - 1));
        let (key, value) = steps[n - 1];
        let before = collect_results(steps.take(n - 1), types, prefix);
        assert(target.skip(prefix.len() as int) =~= param);
        assert(target.take(prefix.len() as int) =~= prefix);
        if key != target && has_prefix(key, prefix) && key.skip(prefix.len() as int) == param {
            assert(key =~= key.take(prefix.len() as int) + key.skip(prefix.len() as int));
        }
        if has_prefix(key, prefix) && assoc(types, key) == Some(ParameterType::Step)
            && value is Some {
            assoc_after_insert(before, key.skip(prefix.len() as int), value->0, param);
        }
        if key == target {
            crate::text::text_less_irreflexive(target);
            assert forall|i: int| 0 <= i < n - 1 implies (#[trigger] steps[i]).0 != target by {
                assert(crate::text::text_less(steps[i].0, steps[n - 1].0));
            }
            no_key_before(steps, target, n - 1);
        }
    }
}

proof fn no_key_before(m: Seq<(Seq<char>, Option<JsonView>)>, key: Seq<char>, n: int)
    requires
        0 <= n <= m.len(),
        forall|i: int| 0 <= i < n ==> (#[trigger] m[i]).0 != key,
    ensures
        last_assoc(m, key, n) is None,
    decreases n,
{
    if n > 0 {
        no_key_before(m, key, n - 1);
    }
}

/// A declared parameter has its type; a step parameter has no value then, so that a
/// reader waits, and a stream keeps what was published. Other keys are as they were.
pub proof fn declaring_makes_one_parameter(
    b: BusView,
    key: Seq<char>,
    t: ParameterType,
    other: Seq<char>,
)
    ensures
        assoc(b.declare(key, t).types, key) == Some(t),
        t == ParameterType::Step ==> b.declare(key, t).read(key) == Ok::<
            Option<JsonView>,
            ErrorView,
        >(None),
        published(b.declare(key, t), other) == published(b, other),
        consumers(b.declare(key, t), other) == consumers(b, other),
        other != key ==> assoc(b.declare(key, t).types, other) == assoc(b.types, other),
        other != key ==> assoc(b.declare(key, t).steps, other) == assoc(b.steps, other),
        other != key ==> b.declare(key, t).read(other) == b.read(other),
{
    assoc_after_insert(b.types, key, t, key);
    assoc_after_insert(b.types, key, t, other);
    assoc_after_insert(b.steps, key, None, key);
    assoc_after_insert(b.steps, key, None, other);
    assoc_after_insert(b.history, key, Seq::empty(), other);
}

/// Whether a key is that of one of a node's parameters.
pub open spec fn is_key_of(
    key: Seq<char>,
    node: Seq<char>,
    params: Seq<(Seq<char>, ParameterType)>,
) -> bool {
    exists|i: int| 0 <= i < params.len() && key == node + "."@ + (#[trigger] params[i]).0
}

/// Declaring the parameters of a node gives each of them its type, under the node's name,
/// a dot and its own name; a step parameter has no value then. No other key is touched.
pub proof fn declaring_makes_each_parameter(
    b: BusView,
    node: Seq<char>,
    params: Seq<(Seq<char>, ParameterType)>,
    i: int,
    other: Seq<char>,
)
    requires
        sorted(params),
    ensures
        ({
            let d = b.declare_all(node, params);
            &&& 0 <= i < params.len() ==> assoc(d.types, node + "."@ + params[i].0) == Some(
                params[i].1,
            )
            &&& 0 <= i < params.len() && params[i].1 == ParameterType::Step ==> d.read(
                node + "."@ + params[i].0,
            ) == Ok::<Option<JsonView>, ErrorView>(None)
            &&& !is_key_of(other, node, params) ==> assoc(d.types, other) == assoc(b.types, other)
                && d.read(other) == b.read(other)
            &&& published(d, other) == published(b, other)
            &&& consumers(d, other) == consumers(b, other)
        }),
    decreases params.len(),
{
    if params.len() > 0 {
        let front = params.drop_last();
        let last = params.last();
        let key = param_key(node, last.0);
        let mid = b.declare_all(node, front);
        assert forall|x: int, y: int| 0 <= x < y < front.len() implies crate::text::text_less(
            #[trigger] front[x].0,
            #[trigger] front[y].0,
        ) by {
            assert(crate::text::text_less(params[x].0, params[y].0));
        }
        declaring_makes_each_parameter(b, node, front, i, other);
        declaring_makes_one_parameter(mid, key, last.1, other);
        if 0 <= i < front.len() {
            assert(front[i] == params[i]);
            let mine = node + "."@ + params[i].0;
            assert(crate::text::text_less(params[i].0, params[params.len() - 1].0));
            crate::text::text_less_irreflexive(last.0);
            if mine == key {
                assert(params[i].0 =~= mine.skip((node + "."@).len() as int));
                assert(last.0 =~= key.skip((node + "."@).len() as int));
            }
            declaring_makes_one_parameter(mid, key, last.1, mine);
        }
        if !is_key_of(other, node, params) {
            assert(other != node + "."@ + params[params.len() - 1].0);
            if is_key_of(other, node, front) {
                let k = choose|k: int|
                    0 <= k < front.len() && other == node + "."@ + (#[trigger] front[k]).0;
                assert(other == node + "."@ + params[k].0);
            }
        }
    }
}

/// Setting a value changes the one parameter: a step parameter is then read as the value,
/// a stream has published the value after what it had published. Nothing else changes.
pub proof fn setting_changes_one_parameter(
    b: BusView,
    key: Seq<char>,
    value: JsonView,
    other: Seq<char>,
)
    requires
        b.wf(),
        assoc(b.types, key) is Some,
    ensures
        b.set(key, value).types == b.types,
        b.set(key, value).subscribers == b.subscribers,
        assoc(b.types, key) == Some(ParameterType::Step) ==> b.set(key, value).read(key) == Ok::<
            Option<JsonView>,
            ErrorView,
        >(Some(value)) && published(b.set(key, value), key) == published(b, key),
        assoc(b.types, key) == Some(ParameterType::Stream) ==> published(b.set(key, value), key)
            == published(b, key).push(value) && assoc(b.set(key, value).steps, key) == assoc(
            b.steps,
            key,
        ),
        other != key ==> b.set(key, value).read(other) == b.read(other) && published(
            b.set(key, value),
            other,
        ) == published(b, other),
{
    assert(assoc(b.types, key) == Some(ParameterType::Step) ==> assoc(b.steps, key) is Some);
    assoc_after_update(b.steps, key, Some(value), key);
    assoc_after_update(b.steps, key, Some(value), other);
    assoc_after_update(b.history, key, published(b, key).push(value), key);
    assoc_after_update(b.history, key, published(b, key).push(value), other);
    assoc_after_insert(b.history, key, seq![value], key);
    assoc_after_insert(b.history, key, seq![value], other);
    assert(Seq::<JsonView>::empty().push(value) =~= seq![value]);
}

/// Subscribing adds the consumer to those of the key, and changes nothing else: neither
/// the other consumers nor what was published nor any step value.
pub proof fn subscribing_adds_one_consumer(
    b: BusView,
    key: Seq<char>,
    consumer: Seq<char>,
    other_key: Seq<char>,
    other: Seq<char>,
)
    ensures
        assoc(consumers(b.subscribe(key, consumer), key), consumer) is Some,
        other != consumer ==> assoc(consumers(b.subscribe(key, consumer), key), other) == assoc(
            consumers(b, key),
            other,
        ),
        other_key != key ==> consumers(b.subscribe(key, consumer), other_key) == consumers(
            b,
            other_key,
        ),
        b.subscribe(key, consumer).types == b.types,
        b.subscribe(key, consumer).steps == b.steps,
        b.subscribe(key, consumer).history == b.history,
{
    consumers_after_subscribing(b, key, consumer, key);
    consumers_after_subscribing(b, key, consumer, other_key);
    assoc_after_insert(consumers(b, key), consumer, (), consumer);
    assoc_after_insert(consumers(b, key), consumer, (), other);
}

/// Step parameters are read and streams are subscribed to, never the other way round; and
/// an undeclared key is refused in either way and cannot be set.
pub proof fn parameters_are_used_by_their_type(b: BusView, key: Seq<char>)
    requires
        b.wf(),
    ensures
        b.read(key) is Ok <==> assoc(b.types, key) == Some(ParameterType::Step),
        b.subscribe_error(key) is None <==> assoc(b.types, key) == Some(ParameterType::Stream),
        assoc(b.types, key) is None ==> b.read(key) == Err::<Option<JsonView>, ErrorView>(
            ErrorView::ParameterNotFound(key),
        ) && b.subscribe_error(key) == Some(ErrorView::ParameterNotFound(key)) && b.set_error(key)
            == Some(ErrorView::ParameterNotFound(key)),
        b.read(key) is Ok && b.read(key)->Ok_0 is Some ==> assoc(b.steps, key) == Some(
            b.read(key)->Ok_0,
        ),
{
    assert(assoc(b.types, key) == Some(ParameterType::Step) ==> assoc(b.steps, key) is Some);
}

/// A value set at a stream is sent to the consumers that have subscribed to its key, each
/// once, and to no one else; one set at a step parameter is sent to no one.
pub proof fn recipients_are_the_consumers(b: BusView, key: Seq<char>, consumer: Seq<char>)
    requires
        b.wf(),
    ensures
        b.recipients(key).contains(consumer) <==> assoc(b.types, key) == Some(
            ParameterType::Stream,
        ) && assoc(consumers(b, key), consumer) is Some,
        b.recipients(key).no_duplicates(),
{
    let list = consumers(b, key);
    assert(sorted(list));
    crate::string_map::assoc_some_iff(list, consumer);
    let names = keys_of(list);
    if assoc(list, consumer) is Some {
        let i = choose|i: int| 0 <= i < list.len() && (#[trigger] list[i]).0 == consumer;
        assert(names[i] == consumer);
    }
    if names.contains(consumer) {
        let i = choose|i: int| 0 <= i < names.len() && names[i] == consumer;
        assert(list[i].0 == consumer);
    }
    assert forall|i: int, j: int| 0 <= i < j < names.len() implies names[i] != names[j] by {
        assert(crate::text::text_less(list[i].0, list[j].0));
        crate::text::text_less_irreflexive(list[i].0);
    }
    assert(names.no_duplicates()) by {
        assert forall|i: int, j: int|
            0 <= i < names.len() && 0 <= j < names.len() && i != j implies names[i] != names[j] by {
            if i < j {
            } else {
                assert(names[j] != names[i]);
            }
        }
    }
}

/// Each type of parameter has its word, and no other word names one.
pub proof fn words_name_the_types(word: Seq<char>)
    ensures
        ParameterType::named(word) == Some(ParameterType::Step) <==> word == "step"@,
        ParameterType::named(word) == Some(ParameterType::Stream) <==> word == "stream"@,
        ParameterType::named(word) is None <==> word != "step"@
            && word != "stream"@,
{
    reveal_strlit("step");
    reveal_strlit("stream");
    assert("step"@.len() != "stream"@.len());
}

/// A parameter that is used against its type is refused, and the error says so: a stream
/// cannot be read, and a step parameter cannot be subscribed to.
pub proof fn wrong_use_is_refused(b: BusView, key: Seq<char>)
    ensures
        assoc(b.types, key) == Some(ParameterType::Stream) ==> b.read(key) == Err::<
            Option<JsonView>,
            ErrorView,
        >(
            ErrorView::ConfigError(
                "Stream parameters should be accessed via registered receiver"@,
            ),
        ),
        assoc(b.types, key) == Some(ParameterType::Step) ==> b.subscribe_error(key) == Some(
            ErrorView::ConfigError(
                "Parameter "@ + key + " must be stream type, but found "@ + "Step"@,
            ),
        ),
{
}

} // verus!
