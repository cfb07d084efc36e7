//! Checks a workflow configuration as a whole before a workflow is built of it, and
//! reports everything that is wrong with it.
use vstd::prelude::*;

use crate::config::schema::{
    node_views, NodeConfigJson, NodeJsonView, WorkflowConfig, WorkflowConfigView,
};
use crate::node::registry::{NodeFactory, NodeRegistry};
use crate::string_map::{assoc, assoc_some_iff, keys_of};
use crate::text::{
    cat2, cat3, cat4, cat5, debug_list, debug_texts, decimal, decimal_text,
    first_piece_ends_at_the_separator, has_prefix, split, split_text, starts_with, text_eq, texts,
};
use crate::value::{Json, JsonView, NumberView};

verus! {

/// Something that is wrong with a configuration.
#[derive(Debug)]
pub struct ValidationError {
    /// The node or the field.
    pub location: String,
    /// What is wrong.
    pub message: String,
    /// How to mend it.
    pub suggestion: String,
}

/// What an error holds.
#[verifier::ext_equal]
pub struct ValidationErrorView {
    pub location: Seq<char>,
    pub message: Seq<char>,
    pub suggestion: Seq<char>,
}

impl View for ValidationError {
    type V = ValidationErrorView;

    open spec fn view(&self) -> ValidationErrorView {
        ValidationErrorView {
            location: self.location@,
            message: self.message@,
            suggestion: self.suggestion@,
        }
    }
}

impl ValidationError {
    /// An error with the given texts.
    pub fn new(location: String, message: String, suggestion: String) -> (r: ValidationError)
        ensures
            r@ == (ValidationErrorView {
                location: location@,
                message: message@,
                suggestion: suggestion@,
            }),
    {
        ValidationError { location, message, suggestion }
    }
}

/// The views of a list of errors.
pub open spec fn problem_views(v: Seq<ValidationError>) -> Seq<ValidationErrorView> {
    Seq::new(v.len(), |i: int| v[i]@)
}

// ---------------------------------------------------------------------------
// What is wrong
// ---------------------------------------------------------------------------

/// Whether some node has the name.
pub open spec fn names_node(nodes: Seq<NodeJsonView>, name: Seq<char>) -> bool {
    exists|i: int| 0 <= i < nodes.len() && (#[trigger] nodes[i]).node_name == name
}

/// Whether some node has the id.
pub open spec fn has_id(nodes: Seq<NodeJsonView>, id: u32) -> bool {
    exists|i: int| 0 <= i < nodes.len() && (#[trigger] nodes[i]).id == id
}

/// One error for every node whose id an earlier node has.
pub open spec fn id_problems(nodes: Seq<NodeJsonView>) -> Seq<ValidationErrorView>
    decreases nodes.len(),
{
    if nodes.len() == 0 {
        Seq::empty()
    } else {
        let front = id_problems(nodes.drop_last());
        let id = nodes.last().id;
        if has_id(nodes.drop_last(), id) {
            front.push(
                ValidationErrorView {
                    location: "node_id="@ + decimal(id as nat),
                    message: "Duplicate node ID: "@ + decimal(id as nat),
                    suggestion:
                        "Each node must have a unique ID. Change the duplicate ID to a unique value."@,
                },
            )
        } else {
            front
        }
    }
}

/// One error where no node has the name of the start node.
pub open spec fn start_problems(c: WorkflowConfigView) -> Seq<ValidationErrorView> {
    if names_node(c.nodes, c.start_node) {
        Seq::empty()
    } else {
        seq![
            ValidationErrorView {
                location: "start_node"@,
                message: "Start node '"@ + c.start_node + "' not found in nodes list"@,
                suggestion: "Add a node with name '"@ + c.start_node
                    + "' or change start_node to an existing node name"@,
            },
        ]
    }
}

/// One error for every choice of a node whose target is neither the end nor a node.
pub open spec fn target_problems(
    all: Seq<NodeJsonView>,
    name: Seq<char>,
    choices: Seq<(Seq<char>, Seq<char>)>,
) -> Seq<ValidationErrorView>
    decreases choices.len(),
{
    if choices.len() == 0 {
        Seq::empty()
    } else {
        let front = target_problems(all, name, choices.drop_last());
        let (choice, target) = choices.last();
        if target == "finish"@ || names_node(all, target) {
            front
        } else {
            front.push(
                ValidationErrorView {
                    location: "node="@ + name + ", choice_map."@ + choice,
                    message: "Target node '"@ + target + "' not found"@,
                    suggestion: "Add a node with name '"@ + target
                        + "' or change the target to an existing node"@,
                },
            )
        }
    }
}

/// The target errors of a list of nodes.
pub open spec fn choice_problems(all: Seq<NodeJsonView>, nodes: Seq<NodeJsonView>) -> Seq<
    ValidationErrorView,
>
    decreases nodes.len(),
{
    if nodes.len() == 0 {
        Seq::empty()
    } else {
        choice_problems(all, nodes.drop_last()) + target_problems(
            all,
            nodes.last().node_name,
            nodes.last().choice_map,
        )
    }
}

/// Whether the source of an input is known: it is empty, an input of the workflow,
/// a field of the start or of the context, or it begins with the name of a node.
pub open spec fn source_known(c: WorkflowConfigView, source: Seq<char>) -> bool {
    ||| source.len() == 0
    ||| assoc(c.input_parameters, source) is Some
    ||| (has_prefix(source, "start."@) || has_prefix(source, "context."@)) && split_text(
        source,
        '.',
    ).len() > 1
    ||| names_node(c.nodes, split_text(source, '.')[0])
}

/// One error for every input of a node whose source is not known.
pub open spec fn source_problems(
    c: WorkflowConfigView,
    name: Seq<char>,
    inputs: Seq<(Seq<char>, Option<Seq<char>>)>,
) -> Seq<ValidationErrorView>
    decreases inputs.len(),
{
    if inputs.len() == 0 {
        Seq::empty()
    } else {
        let front = source_problems(c, name, inputs.drop_last());
        let (param, source) = inputs.last();
        if source is None || source_known(c, source->0) {
            front
        } else {
            let node = split_text(source->0, '.')[0];
            front.push(
                ValidationErrorView {
                    location: "node="@ + name + ", input_map."@ + param,
                    message: "Source node '"@ + node + "' not found in parameter reference '"@
                        + source->0 + "'"@,
                    suggestion: "Ensure node '"@ + node
                        + "' exists or correct the parameter reference"@,
                },
            )
        }
    }
}

/// The source errors of a list of nodes.
pub open spec fn input_problems(c: WorkflowConfigView, nodes: Seq<NodeJsonView>) -> Seq<
    ValidationErrorView,
>
    decreases nodes.len(),
{
    if nodes.len() == 0 {
        Seq::empty()
    } else {
        input_problems(c, nodes.drop_last()) + source_problems(
            c,
            nodes.last().node_name,
            nodes.last().input_map,
        )
    }
}

/// One error for every node whose type is not registered.
pub open spec fn type_problems(types: Seq<Seq<char>>, nodes: Seq<NodeJsonView>) -> Seq<
    ValidationErrorView,
>
    decreases nodes.len(),
{
    if nodes.len() == 0 {
        Seq::empty()
    } else {
        let front = type_problems(types, nodes.drop_last());
        let node = nodes.last();
        if types.contains(node.node_type) {
            front
        } else {
            front.push(
                ValidationErrorView {
                    location: "node="@ + node.node_name,
                    message: "Node type '"@ + node.node_type + "' not registered"@,
                    suggestion: "Register the node type '"@ + node.node_type
                        + "' or use a registered type: "@ + debug_list(types),
                },
            )
        }
    }
}

/// A list of one error where a condition holds, else an empty list.
pub open spec fn problem_if(
    cond: bool,
    name: Seq<char>,
    message: Seq<char>,
    suggestion: Seq<char>,
) -> Seq<ValidationErrorView> {
    if cond {
        seq![ValidationErrorView { location: "node="@ + name, message, suggestion }]
    } else {
        Seq::empty()
    }
}

/// Whether a loop with this test is asked for a value to compare with.
pub open spec fn test_compares(word: Seq<char>) -> bool {
    ||| word == "less_than"@
    ||| word == "greater_than"@
    ||| word == "equals"@
    ||| word == "not_equals"@
    ||| word == "less_or_equal"@
    ||| word == "greater_or_equal"@
}

/// What is wrong with the limit of a loop.
pub open spec fn limit_problems(name: Seq<char>, limit: Option<JsonView>) -> Seq<
    ValidationErrorView,
> {
    match limit {
        None => problem_if(
            true,
            name,
            "while_node requires 'max_iterations' attribute"@,
            "Add 'max_iterations' to attrs with a positive integer value"@,
        ),
        Some(v) => match v.as_u64() {
            None => problem_if(
                true,
                name,
                "max_iterations must be a positive integer"@,
                "Set max_iterations to a positive integer value (not negative, float, or string)"@,
            ),
            Some(n) => problem_if(
                n == 0,
                name,
                "max_iterations must be greater than 0"@,
                "Set max_iterations to a positive integer"@,
            ),
        },
    }
}

/// Whether the attribute `condition_type` of a node names a test that compares,
/// while there is nothing to compare with.
pub open spec fn lacks_compare(attrs: Seq<(Seq<char>, JsonView)>) -> bool {
    match assoc(attrs, "condition_type"@) {
        Some(JsonView::Text(word)) => test_compares(word) && assoc(
            attrs,
            "compare_value"@,
        ) is None,
        _ => false,
    }
}

/// What is wrong with the attributes and choices of a loop.
pub open spec fn loop_problems(node: NodeJsonView) -> Seq<ValidationErrorView> {
    let name = node.node_name;
    let memory = problem_if(
        assoc(node.attrs, "memory_key"@) is None,
        name,
        "while_node requires 'memory_key' attribute"@,
        "Add 'memory_key' to attrs with a string value"@,
    );
    let condition = problem_if(
        assoc(node.attrs, "condition_type"@) is None,
        name,
        "while_node requires 'condition_type' attribute"@,
        "Add 'condition_type' to attrs (e.g., 'less_than', 'greater_than', 'equals')"@,
    );
    let limit = limit_problems(name, assoc(node.attrs, "max_iterations"@));
    let compare = match assoc(node.attrs, "condition_type"@) {
        Some(JsonView::Text(word)) => problem_if(
            lacks_compare(node.attrs),
            name,
            "condition_type '"@ + word + "' requires 'compare_value' attribute"@,
            "Add 'compare_value' to attrs"@,
        ),
        _ => Seq::empty(),
    };
    let choices = problem_if(
        assoc(node.choice_map, "continue"@) is None || assoc(node.choice_map, "exit"@) is None,
        name,
        "while_node requires both 'continue' and 'exit' in choice_map"@,
        "Add both 'continue' and 'exit' keys to choice_map"@,
    );
    memory + condition + limit + compare + choices
}

/// What is wrong with the loops of a list of nodes.
pub open spec fn attr_problems(nodes: Seq<NodeJsonView>) -> Seq<ValidationErrorView>
    decreases nodes.len(),
{
    if nodes.len() == 0 {
        Seq::empty()
    } else {
        let front = attr_problems(nodes.drop_last());
        if nodes.last().node_type == "while_node"@ {
            front + loop_problems(nodes.last())
        } else {
            front
        }
    }
}

/// All that is wrong with a configuration, given the registered types.
pub open spec fn config_problems(c: WorkflowConfigView, types: Seq<Seq<char>>) -> Seq<
    ValidationErrorView,
> {
    id_problems(c.nodes) + start_problems(c) + choice_problems(c.nodes, c.nodes) + input_problems(
        c,
        c.nodes,
    ) + type_problems(types, c.nodes) + attr_problems(c.nodes)
}

// ---------------------------------------------------------------------------
// Finding it
// ---------------------------------------------------------------------------

fn knows_node(nodes: &Vec<NodeConfigJson>, name: &str) -> (r: bool)
    ensures
        r == names_node(node_views(nodes@), name@),
{
    let mut i: usize = 0;
    while i < nodes.len()
        invariant
            i <= nodes@.len(),
            forall|j: int|
                0 <= j < i ==> (#[trigger] node_views(nodes@)[j]).node_name != name@,
        decreases nodes@.len() - i,
    {
        if text_eq(nodes[i].node_name.as_str(), name) {
            proof {
                assert(node_views(nodes@)[i as int].node_name == name@);
            }
            return true;
        }
        i = i + 1;
    }
    false
}

fn knows_id(nodes: &Vec<NodeConfigJson>, upto: usize, id: u32) -> (r: bool)
    requires
        upto <= nodes@.len(),
    ensures
        r == has_id(node_views(nodes@).take(upto as int), id),
{
    let ghost front = node_views(nodes@).take(upto as int);
    let mut i: usize = 0;
    while i < upto
        invariant
            i <= upto <= nodes@.len(),
            front == node_views(nodes@).take(upto as int),
            forall|j: int| 0 <= j < i ==> (#[trigger] front[j]).id != id,
        decreases upto - i,
    {
        if nodes[i].id == id {
            proof {
                assert(front[i as int].id == id);
            }
            return true;
        }
        i = i + 1;
    }
    false
}

/// Checks a configuration against a registry.
pub struct Validator<'a, F> {
    pub config: &'a WorkflowConfig,
    pub registry: &'a NodeRegistry<F>,
    pub errors: Vec<ValidationError>,
}

impl<'a, F: NodeFactory> Validator<'a, F> {
    /// A check that has not begun.
    pub fn new(config: &'a WorkflowConfig, registry: &'a NodeRegistry<F>) -> (r: Validator<'a, F>)
        ensures
            r.config == config,
            r.registry == registry,
            problem_views(r.errors@) == Seq::<ValidationErrorView>::empty(),
    {
        let errors: Vec<ValidationError> = Vec::new();
        proof {
            assert(problem_views(errors@) =~= Seq::empty());
        }
        Validator { config, registry, errors }
    }

    /// Checks everything.
    pub fn validate(self) -> (r: Result<(), Vec<ValidationError>>)
        requires
            self.errors@.len() == 0,
        ensures
            match r {
                Ok(()) => config_problems(self.config@, keys_of(self.registry@)).len() == 0,
                Err(errors) => problem_views(errors@) == config_problems(
                    self.config@,
                    keys_of(self.registry@),
                ) && errors@.len() > 0,
            },
    {
        let mut v = self;
        proof {
            assert(problem_views(v.errors@) =~= Seq::empty());
            let c = self.config@;
            let types = keys_of(self.registry@);
            assert(Seq::<ValidationErrorView>::empty() + id_problems(c.nodes) =~= id_problems(
                c.nodes,
            ));
        }
        v.check_node_ids();
        v.check_start_node();
        v.check_choice_map();
        v.check_input_map();
        v.check_node_types();
        v.check_node_attrs();
        proof {
            assert(problem_views(v.errors@).len() == v.errors@.len());
        }
        if v.errors.len() == 0 {
            Ok(())
        } else {
            Err(v.errors)
        }
    }

    fn report(&mut self, location: String, message: String, suggestion: String)
        ensures
            final(self).config == old(self).config,
            final(self).registry == old(self).registry,
            problem_views(final(self).errors@) == problem_views(old(self).errors@).push(
                ValidationErrorView {
                    location: location@,
                    message: message@,
                    suggestion: suggestion@,
                },
            ),
    {
        let ghost before = problem_views(self.errors@);
        let e = ValidationError::new(location, message, suggestion);
        let ghost v = e@;
        self.errors.push(e);
        proof {
            assert(problem_views(self.errors@) =~= before.push(v));
        }
    }

    /// Finds ids that occur more than once.
    pub fn check_node_ids(&mut self)
        ensures
            final(self).config == old(self).config,
            final(self).registry == old(self).registry,
            problem_views(final(self).errors@) == problem_views(old(self).errors@) + id_problems(
                old(self).config@.nodes,
            ),
    {
        let config = self.config;
        let ghost nodes = config@.nodes;
        let ghost start = problem_views(self.errors@);
        let mut i: usize = 0;
        proof {
            assert(nodes.take(0) =~= Seq::empty());
            assert(start + id_problems(nodes.take(0)) =~= start);
        }
        while i < config.nodes.len()
            invariant
                i <= config.nodes@.len(),
                nodes == config@.nodes,
                self.config == config,
                self.registry == old(self).registry,
                problem_views(self.errors@) == start + id_problems(nodes.take(i as int)),
            decreases config.nodes@.len() - i,
        {
            let ghost before = id_problems(nodes.take(i as int));
            proof {
                assert(nodes.take(i + 1).drop_last() =~= nodes.take(i as int));
                assert(nodes.take(i + 1).last() == config.nodes@[i as int]@);
            }
            let id: u32 = config.nodes[i].id;
            if knows_id(&config.nodes, i, id) {
                let digits = decimal_text(id as u64);
                self.report(
                    cat2("node_id=", digits.as_str()),
                    cat2("Duplicate node ID: ", digits.as_str()),
                    "Each node must have a unique ID. Change the duplicate ID to a unique value.".to_owned(),
                );
                proof {
                    assert(forall|e: ValidationErrorView|
                        #![auto]
                        (start + before).push(e) =~= start + before.push(e));
                }
            }
            i = i + 1;
        }
        proof {
            assert(nodes.take(i as int) =~= nodes);
        }
    }

    /// Finds a start node that is not there.
    pub fn check_start_node(&mut self)
        ensures
            final(self).config == old(self).config,
            final(self).registry == old(self).registry,
            problem_views(final(self).errors@) == problem_views(old(self).errors@)
                + start_problems(old(self).config@),
    {
        let config = self.config;
        let ghost start = problem_views(self.errors@);
        if !knows_node(&config.nodes, config.start_node.as_str()) {
            self.report(
                "start_node".to_owned(),
                cat3(
                    "Start node '",
                    config.start_node.as_str(),
                    "' not found in nodes list",
                ),
                cat3(
                    "Add a node with name '",
                    config.start_node.as_str(),
                    "' or change start_node to an existing node name",
                ),
            );
            proof {
                assert(problem_views(self.errors@) =~= start + start_problems(config@));
            }
        } else {
            proof {
                assert(start + start_problems(config@) =~= start);
            }
        }
    }

    fn check_targets(&mut self, node: &NodeConfigJson)
        ensures
            final(self).config == old(self).config,
            final(self).registry == old(self).registry,
            problem_views(final(self).errors@) == problem_views(old(self).errors@)
                + target_problems(
                old(self).config@.nodes,
                node.node_name@,
                node.choice_map@,
            ),
    {
        let config = self.config;
        let ghost all = config@.nodes;
        let ghost choices = node.choice_map@;
        let ghost name = node.node_name@;
        let ghost start = problem_views(self.errors@);
        let mut k: usize = 0;
        proof {
            assert(choices.take(0) =~= Seq::empty());
            assert(start + target_problems(all, name, choices.take(0)) =~= start);
        }
        while k < node.choice_map.len()
            invariant
                k <= choices.len(),
                all == config@.nodes,
                choices == node.choice_map@,
                name == node.node_name@,
                self.config == config,
                self.registry == old(self).registry,
                problem_views(self.errors@) == start + target_problems(
                    all,
                    name,
                    choices.take(k as int),
                ),
            decreases choices.len() - k,
        {
            let ghost before = target_problems(all, name, choices.take(k as int));
            proof {
                assert(choices.take(k + 1).drop_last() =~= choices.take(k as int));
                assert(choices.take(k + 1).last() == choices[k as int]);
            }
            let choice = node.choice_map.key_at(k);
            let target = node.choice_map.value_at(k).as_str();
            if !text_eq(target, "finish") && !knows_node(&config.nodes, target) {
                self.report(
                    cat4("node=", node.node_name.as_str(), ", choice_map.", choice),
                    cat3("Target node '", target, "' not found"),
                    cat3(
                        "Add a node with name '",
                        target,
                        "' or change the target to an existing node",
                    ),
                );
                proof {
                    assert(forall|e: ValidationErrorView|
                        #![auto]
                        (start + before).push(e) =~= start + before.push(e));
                }
            }
            k = k + 1;
        }
        proof {
            assert(choices.take(k as int) =~= choices);
        }
    }

    /// Finds choices whose targets are not there.
    pub fn check_choice_map(&mut self)
        ensures
            final(self).config == old(self).config,
            final(self).registry == old(self).registry,
            problem_views(final(self).errors@) == problem_views(old(self).errors@)
                + choice_problems(old(self).config@.nodes, old(self).config@.nodes),
    {
        let config = self.config;
        let ghost nodes = config@.nodes;
        let ghost start = problem_views(self.errors@);
        let mut i: usize = 0;
        proof {
            assert(nodes.take(0) =~= Seq::empty());
            assert(start + choice_problems(nodes, nodes.take(0)) =~= start);
        }
        while i < config.nodes.len()
            invariant
                i <= config.nodes@.len(),
                nodes == config@.nodes,
                self.config == config,
                self.registry == old(self).registry,
                problem_views(self.errors@) == start + choice_problems(
                    nodes,
                    nodes.take(i as int),
                ),
            decreases config.nodes@.len() - i,
        {
            let ghost before = choice_problems(nodes, nodes.take(i as int));
            proof {
                assert(nodes.take(i + 1).drop_last() =~= nodes.take(i as int));
                assert(nodes.take(i + 1).last() == config.nodes@[i as int]@);
            }
            self.check_targets(&config.nodes[i]);
            proof {
                let more = target_problems(nodes, nodes[i as int].node_name, nodes[i as int].choice_map);
                assert((start + before) + more =~= start + (before + more));
            }
            i = i + 1;
        }
        proof {
            assert(nodes.take(i as int) =~= nodes);
        }
    }

    fn knows_source(&self, source: &str) -> (r: bool)
        ensures
            r == source_known(self.config@, source@),
    {
        proof {
            reveal_strlit("");
            if source@.len() == 0 {
                assert(source@ =~= ""@);
            }
        }
        if text_eq(source, "") || self.config.input_parameters.contains_key(source) {
            return true;
        }
        let parts = split(source, '.');
        proof {
            assert(texts(parts@)[0] == parts@[0]@);
        }
        if (starts_with(source, "start.") || starts_with(source, "context.")) && parts.len() > 1 {
            return true;
        }
        knows_node(&self.config.nodes, parts[0].as_str())
    }

    fn check_sources(&mut self, node: &NodeConfigJson)
        ensures
            final(self).config == old(self).config,
            final(self).registry == old(self).registry,
            problem_views(final(self).errors@) == problem_views(old(self).errors@)
                + source_problems(old(self).config@, node.node_name@, node.input_map@),
    {
        let config = self.config;
        let ghost c = config@;
        let ghost inputs = node.input_map@;
        let ghost name = node.node_name@;
        let ghost start = problem_views(self.errors@);
        let mut k: usize = 0;
        proof {
            assert(inputs.take(0) =~= Seq::empty());
            assert(start + source_problems(c, name, inputs.take(0)) =~= start);
        }
        while k < node.input_map.len()
            invariant
                k <= inputs.len(),
                c == config@,
                inputs == node.input_map@,
                name == node.node_name@,
                self.config == config,
                self.registry == old(self).registry,
                problem_views(self.errors@) == start + source_problems(
                    c,
                    name,
                    inputs.take(k as int),
                ),
            decreases inputs.len() - k,
        {
            let ghost before = source_problems(c, name, inputs.take(k as int));
            proof {
                assert(inputs.take(k + 1).drop_last() =~= inputs.take(k as int));
                assert(inputs.take(k + 1).last() == inputs[k as int]);
            }
            let param = node.input_map.key_at(k);
            if let Some(source) = &node.input_map.value_at(k).key {
                if !self.knows_source(source.as_str()) {
                    let parts = split(source.as_str(), '.');
                    proof {
                        assert(texts(parts@)[0] == parts@[0]@);
                    }
                    let from = parts[0].as_str();
                    self.report(
                        cat4("node=", node.node_name.as_str(), ", input_map.", param),
                        cat5(
                            "Source node '",
                            from,
                            "' not found in parameter reference '",
                            source.as_str(),
                            "'",
                        ),
                        cat3(
                            "Ensure node '",
                            from,
                            "' exists or correct the parameter reference",
                        ),
                    );
                    proof {
                        assert(forall|e: ValidationErrorView|
                            #![auto]
                            (start + before).push(e) =~= start + before.push(e));
                    }
                }
            }
            k = k + 1;
        }
        proof {
            assert(inputs.take(k as int) =~= inputs);
        }
    }

    /// Finds inputs whose sources are not known.
    pub fn check_input_map(&mut self)
        ensures
            final(self).config == old(self).config,
            final(self).registry == old(self).registry,
            problem_views(final(self).errors@) == problem_views(old(self).errors@)
                + input_problems(old(self).config@, old(self).config@.nodes),
    {
        let config = self.config;
        let ghost c = config@;
        let ghost nodes = config@.nodes;
        let ghost start = problem_views(self.errors@);
        let mut i: usize = 0;
        proof {
            assert(nodes.take(0) =~= Seq::empty());
            assert(start + input_problems(c, nodes.take(0)) =~= start);
        }
        while i < config.nodes.len()
            invariant
                i <= config.nodes@.len(),
                c == config@,
                nodes == config@.nodes,
                self.config == config,
                self.registry == old(self).registry,
                problem_views(self.errors@) == start + input_problems(c, nodes.take(i as int)),
            decreases config.nodes@.len() - i,
        {
            let ghost before = input_problems(c, nodes.take(i as int));
            proof {
                assert(nodes.take(i + 1).drop_last() =~= nodes.take(i as int));
                assert(nodes.take(i + 1).last() == config.nodes@[i as int]@);
            }
            self.check_sources(&config.nodes[i]);
            proof {
                let more = source_problems(c, nodes[i as int].node_name, nodes[i as int].input_map);
                assert((start + before) + more =~= start + (before + more));
            }
            i = i + 1;
        }
        proof {
            assert(nodes.take(i as int) =~= nodes);
        }
    }

    /// Finds nodes whose types are not registered.
    pub fn check_node_types(&mut self)
        ensures
            final(self).config == old(self).config,
            final(self).registry == old(self).registry,
            problem_views(final(self).errors@) == problem_views(old(self).errors@)
                + type_problems(keys_of(old(self).registry@), old(self).config@.nodes),
    {
        let config = self.config;
        let registry = self.registry;
        let ghost types = keys_of(registry@);
        let ghost nodes = config@.nodes;
        let ghost start = problem_views(self.errors@);
        let mut i: usize = 0;
        proof {
            assert(nodes.take(0) =~= Seq::empty());
            assert(start + type_problems(types, nodes.take(0)) =~= start);
        }
        while i < config.nodes.len()
            invariant
                i <= config.nodes@.len(),
                types == keys_of(registry@),
                nodes == config@.nodes,
                self.config == config,
                self.registry == registry,
                problem_views(self.errors@) == start + type_problems(types, nodes.take(i as int)),
            decreases config.nodes@.len() - i,
        {
            let node = &config.nodes[i];
            let ghost before = type_problems(types, nodes.take(i as int));
            proof {
                assert(nodes.take(i + 1).drop_last() =~= nodes.take(i as int));
                assert(nodes.take(i + 1).last() == node@);
                assoc_some_iff(registry@, node.node_type@);
                if types.contains(node.node_type@) {
                    let k = choose|k: int| 0 <= k < types.len() && types[k] == node.node_type@;
                    assert(registry@[k].0 == node.node_type@);
                }
                if assoc(registry@, node.node_type@) is Some {
                    let k = choose|k: int|
                        0 <= k < registry@.len() && (#[trigger] registry@[k]).0 == node.node_type@;
                    assert(types[k] == node.node_type@);
                }
            }
            if !registry.is_registered(node.node_type.as_str()) {
                let known = registry.registered_types();
                let list = debug_texts(&known);
                self.report(
                    cat2("node=", node.node_name.as_str()),
                    cat3("Node type '", node.node_type.as_str(), "' not registered"),
                    cat4(
                        "Register the node type '",
                        node.node_type.as_str(),
                        "' or use a registered type: ",
                        list.as_str(),
                    ),
                );
                proof {
                    assert(forall|e: ValidationErrorView|
                        #![auto]
                        (start + before).push(e) =~= start + before.push(e));
                }
            }
            i = i + 1;
        }
        proof {
            assert(nodes.take(i as int) =~= nodes);
        }
    }

    fn report_if(&mut self, cond: bool, name: &str, message: &str, suggestion: &str)
        ensures
            final(self).config == old(self).config,
            final(self).registry == old(self).registry,
            problem_views(final(self).errors@) == problem_views(old(self).errors@) + problem_if(
                cond,
                name@,
                message@,
                suggestion@,
            ),
    {
        let ghost start = problem_views(self.errors@);
        if cond {
            self.report(cat2("node=", name), message.to_owned(), suggestion.to_owned());
        }
        proof {
            assert(problem_views(self.errors@) =~= start + problem_if(
                cond,
                name@,
                message@,
                suggestion@,
            ));
        }
    }

    fn check_limit(&mut self, name: &str, limit: Option<&Json>)
        ensures
            final(self).config == old(self).config,
            final(self).registry == old(self).registry,
            problem_views(final(self).errors@) == problem_views(old(self).errors@)
                + limit_problems(
                name@,
                match limit {
                    Some(v) => Some(v@),
                    None => None,
                },
            ),
    {
        match limit {
            None => self.report_if(
                true,
                name,
                "while_node requires 'max_iterations' attribute",
                "Add 'max_iterations' to attrs with a positive integer value",
            ),
            Some(v) => match v.as_u64() {
                None => self.report_if(
                    true,
                    name,
                    "max_iterations must be a positive integer",
                    "Set max_iterations to a positive integer value (not negative, float, or string)",
                ),
                Some(n) => self.report_if(
                    n == 0,
                    name,
                    "max_iterations must be greater than 0",
                    "Set max_iterations to a positive integer",
                ),
            },
        }
    }

    /// Finds what is wrong with a loop.
    pub fn check_while_node_attrs(&mut self, node: &NodeConfigJson)
        ensures
            final(self).config == old(self).config,
            final(self).registry == old(self).registry,
            problem_views(final(self).errors@) == problem_views(old(self).errors@)
                + loop_problems(node@),
    {
        let ghost start = problem_views(self.errors@);
        let name = node.node_name.as_str();
        let attrs = &node.attrs;
        self.report_if(
            !attrs.contains_key("memory_key"),
            name,
            "while_node requires 'memory_key' attribute",
            "Add 'memory_key' to attrs with a string value",
        );
        self.report_if(
            !attrs.contains_key("condition_type"),
            name,
            "while_node requires 'condition_type' attribute",
            "Add 'condition_type' to attrs (e.g., 'less_than', 'greater_than', 'equals')",
        );
        self.check_limit(name, attrs.get("max_iterations"));
        if let Some(Json::String(word)) = attrs.get("condition_type") {
            let w = word.as_str();
            let compares = text_eq(w, "less_than") || text_eq(w, "greater_than") || text_eq(
                w,
                "equals",
            ) || text_eq(w, "not_equals") || text_eq(w, "less_or_equal") || text_eq(
                w,
                "greater_or_equal",
            );
            let message = cat3("condition_type '", w, "' requires 'compare_value' attribute");
            self.report_if(
                compares && !attrs.contains_key("compare_value"),
                name,
                message.as_str(),
                "Add 'compare_value' to attrs",
            );
        }
        self.report_if(
            !node.choice_map.contains_key("continue") || !node.choice_map.contains_key("exit"),
            name,
            "while_node requires both 'continue' and 'exit' in choice_map",
            "Add both 'continue' and 'exit' keys to choice_map",
        );
        proof {
            assert(problem_views(self.errors@) =~= start + loop_problems(node@));
        }
    }

    /// Finds what is wrong with the loops.
    pub fn check_node_attrs(&mut self)
        ensures
            final(self).config == old(self).config,
            final(self).registry == old(self).registry,
            problem_views(final(self).errors@) == problem_views(old(self).errors@)
                + attr_problems(old(self).config@.nodes),
    {
        let config = self.config;
        let ghost nodes = config@.nodes;
        let ghost start = problem_views(self.errors@);
        let mut i: usize = 0;
        proof {
            assert(nodes.take(0) =~= Seq::empty());
            assert(start + attr_problems(nodes.take(0)) =~= start);
        }
        while i < config.nodes.len()
            invariant
                i <= config.nodes@.len(),
                nodes == config@.nodes,
                self.config == config,
                self.registry == old(self).registry,
                problem_views(self.errors@) == start + attr_problems(nodes.take(i as int)),
            decreases config.nodes@.len() - i,
        {
            let node = &config.nodes[i];
            let ghost before = attr_problems(nodes.take(i as int));
            proof {
                assert(nodes.take(i + 1).drop_last() =~= nodes.take(i as int));
                assert(nodes.take(i + 1).last() == node@);
            }
            if text_eq(node.node_type.as_str(), "while_node") {
                self.check_while_node_attrs(node);
                proof {
                    assert((start + before) + loop_problems(node@) =~= start + (before
                        + loop_problems(node@)));
                }
            }
            i = i + 1;
        }
        proof {
            assert(nodes.take(i as int) =~= nodes);
        }
    }
}

/// Checks a configuration against a registry.
pub fn validate_config<F: NodeFactory>(config: &WorkflowConfig, registry: &NodeRegistry<F>) -> (r:
    Result<(), Vec<ValidationError>>)
    ensures
        match r {
            Ok(()) => config_problems(config@, keys_of(registry@)).len() == 0,
            Err(errors) => problem_views(errors@) == config_problems(
                config@,
                keys_of(registry@),
            ) && errors@.len() > 0,
        },
{
    let v = Validator::new(config, registry);
    proof {
        assert(problem_views(v.errors@).len() == v.errors@.len());
    }
    v.validate()
}

// ---------------------------------------------------------------------------
// Laws
// ---------------------------------------------------------------------------

/// Whether a node is configured that has the name.
pub open spec fn is_node(c: WorkflowConfigView, name: Seq<char>) -> bool {
    exists|i: int| 0 <= i < c.nodes.len() && name == (#[trigger] c.nodes[i]).node_name
}

/// Whether a choice may lead to a target: the end, or a node.
pub open spec fn may_lead_to(c: WorkflowConfigView, target: Seq<char>) -> bool {
    target == "finish"@ || is_node(c, target)
}

/// Whether an input may come from a source: it is not given or empty, it is an input
/// parameter, a field of the start or of the context, or what stands before its first dot
/// is the name of a node.
pub open spec fn may_come_from(c: WorkflowConfigView, source: Option<Seq<char>>) -> bool {
    match source {
        None => true,
        Some(s) => {
            ||| s.len() == 0
            ||| assoc(c.input_parameters, s) is Some
            ||| has_prefix(s, "start."@)
            ||| has_prefix(s, "context."@)
            ||| is_node(c, split_text(s, '.')[0])
        },
    }
}

/// Whether a loop has all that it needs: a place in memory, a test, a limit above zero, a
/// value to compare with where its test is named as one that compares, and both choices.
pub open spec fn loop_is_complete(node: NodeJsonView) -> bool {
    let word = assoc(node.attrs, "condition_type"@);
    &&& assoc(node.attrs, "memory_key"@) is Some
    &&& word is Some
    &&& assoc(node.attrs, "max_iterations"@) matches Some(
        JsonView::Number(NumberView::PosInt(n)),
    ) && n > 0
    &&& word == Some(JsonView::Text("less_than"@)) || word == Some(
        JsonView::Text("greater_than"@),
    ) || word == Some(JsonView::Text("equals"@)) || word == Some(JsonView::Text("not_equals"@))
        || word == Some(JsonView::Text("less_or_equal"@)) || word == Some(
        JsonView::Text("greater_or_equal"@),
    ) ==> assoc(node.attrs, "compare_value"@) is Some
    &&& assoc(node.choice_map, "continue"@) is Some
    &&& assoc(node.choice_map, "exit"@) is Some
}

/// A configuration has no errors exactly where it holds together: the start node is a node,
/// no two nodes have one id, every choice leads to the end or to a node, every input comes
/// from something that is there, every type is registered, and every loop is complete.
pub proof fn config_is_valid_where_it_holds_together(
    c: WorkflowConfigView,
    types: Seq<Seq<char>>,
)
    ensures
        config_problems(c, types).len() == 0 <==> {
            &&& is_node(c, c.start_node)
            &&& forall|i: int, j: int|
                0 <= i < j < c.nodes.len() ==> (#[trigger] c.nodes[i]).id != (
                #[trigger] c.nodes[j]).id
            &&& forall|i: int, k: int|
                0 <= i < c.nodes.len() && 0 <= k < c.nodes[i].choice_map.len() ==> may_lead_to(
                    c,
                    (#[trigger] c.nodes[i].choice_map[k]).1,
                )
            &&& forall|i: int, k: int|
                0 <= i < c.nodes.len() && 0 <= k < c.nodes[i].input_map.len() ==> may_come_from(
                    c,
                    (#[trigger] c.nodes[i].input_map[k]).1,
                )
            &&& forall|i: int|
                0 <= i < c.nodes.len() ==> types.contains((#[trigger] c.nodes[i]).node_type)
            &&& forall|i: int|
                0 <= i < c.nodes.len() && (#[trigger] c.nodes[i]).node_type == "while_node"@
                    ==> loop_is_complete(c.nodes[i])
        },
{
    let ids = id_problems(c.nodes);
    let start = start_problems(c);
    let choices = choice_problems(c.nodes, c.nodes);
    let inputs = input_problems(c, c.nodes);
    let kinds = type_problems(types, c.nodes);
    let attrs = attr_problems(c.nodes);
    assert(config_problems(c, types).len() == ids.len() + start.len() + choices.len()
        + inputs.len() + kinds.len() + attrs.len());
    ids_differ(c.nodes);
    assert(names_node(c.nodes, c.start_node) <==> is_node(c, c.start_node)) by {
        same_names(c, c.start_node);
    }
    choices_lead_on(c, c.nodes);
    sources_are_there(c, c.nodes);
    types_known(types, c.nodes);
    loops_are_complete(c.nodes);
}

/// In a configuration without errors the start node is a node, and every choice
/// leads to the end or to a node.
pub proof fn valid_config_holds_together(c: WorkflowConfigView, types: Seq<Seq<char>>)
    requires
        config_problems(c, types).len() == 0,
    ensures
        names_node(c.nodes, c.start_node),
        forall|i: int, k: int|
            0 <= i < c.nodes.len() && 0 <= k < c.nodes[i].choice_map.len() ==> (
            #[trigger] c.nodes[i].choice_map[k]).1 == "finish"@ || names_node(
                c.nodes,
                c.nodes[i].choice_map[k].1,
            ),
        forall|i: int|
            0 <= i < c.nodes.len() ==> types.contains((#[trigger] c.nodes[i]).node_type),
        forall|i: int, j: int|
            0 <= i < j < c.nodes.len() ==> (#[trigger] c.nodes[i]).id != (
            #[trigger] c.nodes[j]).id,
{
    config_is_valid_where_it_holds_together(c, types);
    same_names(c, c.start_node);
    assert forall|i: int, k: int|
        0 <= i < c.nodes.len() && 0 <= k < c.nodes[i].choice_map.len() implies (
    #[trigger] c.nodes[i].choice_map[k]).1 == "finish"@ || names_node(
        c.nodes,
        c.nodes[i].choice_map[k].1,
    ) by {
        assert(may_lead_to(c, c.nodes[i].choice_map[k].1));
        same_names(c, c.nodes[i].choice_map[k].1);
    }
}

/// In a configuration without errors every input that has a source other than an input
/// parameter or a field of the start or of the context has it from a node: the source is
/// the name of a node, or begins with one and a dot, and there is no dot in that name.
pub proof fn valid_sources_begin_with_a_node(
    c: WorkflowConfigView,
    types: Seq<Seq<char>>,
    i: int,
    k: int,
)
    requires
        config_problems(c, types).len() == 0,
        0 <= i < c.nodes.len(),
        0 <= k < c.nodes[i].input_map.len(),
        c.nodes[i].input_map[k].1 is Some,
    ensures
        ({
            let source = c.nodes[i].input_map[k].1->0;
            ||| source.len() == 0
            ||| assoc(c.input_parameters, source) is Some
            ||| has_prefix(source, "start."@)
            ||| has_prefix(source, "context."@)
            ||| exists|j: int|
                0 <= j < c.nodes.len() && !(#[trigger] c.nodes[j]).node_name.contains('.') && (
                source == c.nodes[j].node_name || has_prefix(
                    source,
                    c.nodes[j].node_name + "."@,
                ))
        }),
{
    let source = c.nodes[i].input_map[k].1->0;
    config_is_valid_where_it_holds_together(c, types);
    assert(may_come_from(c, c.nodes[i].input_map[k].1));
    let first = split_text(source, '.')[0];
    first_piece_ends_at_the_separator(source, '.');
    if is_node(c, first) {
        let j = choose|j: int| 0 <= j < c.nodes.len() && first == (#[trigger] c.nodes[j]).node_name;
        assert(c.nodes[j].node_name == first);
        if source.contains('.') {
            reveal_strlit(".");
            let p = first + "."@;
            assert(source.take(p.len() as int) =~= p) by {
                assert forall|n: int| 0 <= n < p.len() implies source[n] == p[n] by {
                    if n < first.len() {
                        assert(source.take(first.len() as int)[n] == first[n]);
                    }
                }
            }
        }
    }
}

proof fn same_names(c: WorkflowConfigView, name: Seq<char>)
    ensures
        names_node(c.nodes, name) <==> is_node(c, name),
{
    if names_node(c.nodes, name) {
        let i = choose|i: int| 0 <= i < c.nodes.len() && (#[trigger] c.nodes[i]).node_name == name;
        assert(name == c.nodes[i].node_name);
    }
    if is_node(c, name) {
        let i = choose|i: int| 0 <= i < c.nodes.len() && name == (#[trigger] c.nodes[i]).node_name;
        assert(c.nodes[i].node_name == name);
    }
}

proof fn targets_known(
    c: WorkflowConfigView,
    name: Seq<char>,
    choices: Seq<(Seq<char>, Seq<char>)>,
)
    ensures
        target_problems(c.nodes, name, choices).len() == 0 <==> forall|k: int|
            0 <= k < choices.len() ==> may_lead_to(c, (#[trigger] choices[k]).1),
    decreases choices.len(),
{
    if choices.len() > 0 {
        let front = choices.drop_last();
        targets_known(c, name, front);
        same_names(c, choices.last().1);
        assert(choices[choices.len() - 1] == choices.last());
        assert forall|k: int| 0 <= k < front.len() implies #[trigger] front[k] == choices[k] by {}
        if forall|k: int| 0 <= k < front.len() ==> may_lead_to(c, (#[trigger] front[k]).1) {
            assert forall|k: int| 0 <= k < choices.len() - 1 implies may_lead_to(
                c,
                (#[trigger] choices[k]).1,
            ) by {
                assert(front[k] == choices[k]);
            }
        }
    }
}

proof fn choices_lead_on(c: WorkflowConfigView, nodes: Seq<NodeJsonView>)
    ensures
        choice_problems(c.nodes, nodes).len() == 0 <==> forall|i: int, k: int|
            0 <= i < nodes.len() && 0 <= k < nodes[i].choice_map.len() ==> may_lead_to(
                c,
                (#[trigger] nodes[i].choice_map[k]).1,
            ),
    decreases nodes.len(),
{
    if nodes.len() > 0 {
        let front = nodes.drop_last();
        let last = nodes.last();
        let n = nodes.len() - 1;
        choices_lead_on(c, front);
        targets_known(c, last.node_name, last.choice_map);
        assert(nodes[n] == last);
        if choice_problems(c.nodes, nodes).len() == 0 {
            assert forall|i: int, k: int|
                0 <= i < nodes.len() && 0 <= k < nodes[i].choice_map.len() implies may_lead_to(
                c,
                (#[trigger] nodes[i].choice_map[k]).1,
            ) by {
                if i < n {
                    assert(front[i].choice_map[k] == nodes[i].choice_map[k]);
                } else {
                    assert(last.choice_map[k] == nodes[i].choice_map[k]);
                }
            }
        }
        if forall|i: int, k: int|
            0 <= i < nodes.len() && 0 <= k < nodes[i].choice_map.len() ==> may_lead_to(
                c,
                (#[trigger] nodes[i].choice_map[k]).1,
            ) {
            assert forall|i: int, k: int|
                0 <= i < front.len() && 0 <= k < front[i].choice_map.len() implies may_lead_to(
                c,
                (#[trigger] front[i].choice_map[k]).1,
            ) by {
                assert(nodes[i].choice_map[k] == front[i].choice_map[k]);
            }
            assert forall|k: int| 0 <= k < last.choice_map.len() implies may_lead_to(
                c,
                (#[trigger] last.choice_map[k]).1,
            ) by {
                assert(nodes[n].choice_map[k] == last.choice_map[k]);
            }
        }
    }
}

proof fn dotted_has_two_pieces(s: Seq<char>)
    requires
        has_prefix(s, "start."@) || has_prefix(s, "context."@),
    ensures
        split_text(s, '.').len() > 1,
{
    reveal_strlit("start.");
    reveal_strlit("context.");
    let p = if has_prefix(s, "start."@) {
        "start."@
    } else {
        "context."@
    };
    assert(s.take(p.len() as int) == p);
    assert(p[p.len() - 1] == '.');
    assert(s[p.len() - 1] == s.take(p.len() as int)[p.len() - 1]);
    assert(s.contains('.'));
    first_piece_ends_at_the_separator(s, '.');
}

proof fn source_is_known(c: WorkflowConfigView, source: Seq<char>)
    ensures
        source_known(c, source) <==> may_come_from(c, Some(source)),
{
    same_names(c, split_text(source, '.')[0]);
    if has_prefix(source, "start."@) || has_prefix(source, "context."@) {
        dotted_has_two_pieces(source);
    }
}

proof fn inputs_known(
    c: WorkflowConfigView,
    name: Seq<char>,
    inputs: Seq<(Seq<char>, Option<Seq<char>>)>,
)
    ensures
        source_problems(c, name, inputs).len() == 0 <==> forall|k: int|
            0 <= k < inputs.len() ==> may_come_from(c, (#[trigger] inputs[k]).1),
    decreases inputs.len(),
{
    if inputs.len() > 0 {
        let front = inputs.drop_last();
        inputs_known(c, name, front);
        if let Some(s) = inputs.last().1 {
            source_is_known(c, s);
        }
        assert(inputs[inputs.len() - 1] == inputs.last());
        assert forall|k: int| 0 <= k < front.len() implies #[trigger] front[k] == inputs[k] by {}
        if forall|k: int| 0 <= k < front.len() ==> may_come_from(c, (#[trigger] front[k]).1) {
            assert forall|k: int| 0 <= k < inputs.len() - 1 implies may_come_from(
                c,
                (#[trigger] inputs[k]).1,
            ) by {
                assert(front[k] == inputs[k]);
            }
        }
    }
}

proof fn sources_are_there(c: WorkflowConfigView, nodes: Seq<NodeJsonView>)
    ensures
        input_problems(c, nodes).len() == 0 <==> forall|i: int, k: int|
            0 <= i < nodes.len() && 0 <= k < nodes[i].input_map.len() ==> may_come_from(
                c,
                (#[trigger] nodes[i].input_map[k]).1,
            ),
    decreases nodes.len(),
{
    if nodes.len() > 0 {
        let front = nodes.drop_last();
        let last = nodes.last();
        let n = nodes.len() - 1;
        sources_are_there(c, front);
        inputs_known(c, last.node_name, last.input_map);
        assert(nodes[n] == last);
        if input_problems(c, nodes).len() == 0 {
            assert forall|i: int, k: int|
                0 <= i < nodes.len() && 0 <= k < nodes[i].input_map.len() implies may_come_from(
                c,
                (#[trigger] nodes[i].input_map[k]).1,
            ) by {
                if i < n {
                    assert(front[i].input_map[k] == nodes[i].input_map[k]);
                } else {
                    assert(last.input_map[k] == nodes[i].input_map[k]);
                }
            }
        }
        if forall|i: int, k: int|
            0 <= i < nodes.len() && 0 <= k < nodes[i].input_map.len() ==> may_come_from(
                c,
                (#[trigger] nodes[i].input_map[k]).1,
            ) {
            assert forall|i: int, k: int|
                0 <= i < front.len() && 0 <= k < front[i].input_map.len() implies may_come_from(
                c,
                (#[trigger] front[i].input_map[k]).1,
            ) by {
                assert(nodes[i].input_map[k] == front[i].input_map[k]);
            }
            assert forall|k: int| 0 <= k < last.input_map.len() implies may_come_from(
                c,
                (#[trigger] last.input_map[k]).1,
            ) by {
                assert(nodes[n].input_map[k] == last.input_map[k]);
            }
        }
    }
}

proof fn types_known(types: Seq<Seq<char>>, nodes: Seq<NodeJsonView>)
    ensures
        type_problems(types, nodes).len() == 0 <==> forall|i: int|
            0 <= i < nodes.len() ==> types.contains((#[trigger] nodes[i]).node_type),
    decreases nodes.len(),
{
    if nodes.len() > 0 {
        let front = nodes.drop_last();
        types_known(types, front);
        assert(nodes[nodes.len() - 1] == nodes.last());
        assert forall|k: int| 0 <= k < front.len() implies #[trigger] front[k] == nodes[k] by {}
        if forall|i: int| 0 <= i < front.len() ==> types.contains((#[trigger] front[i]).node_type) {
            assert forall|i: int| 0 <= i < nodes.len() - 1 implies types.contains(
                (#[trigger] nodes[i]).node_type,
            ) by {
                assert(front[i] == nodes[i]);
            }
        }
    }
}

proof fn ids_differ(nodes: Seq<NodeJsonView>)
    ensures
        id_problems(nodes).len() == 0 <==> forall|i: int, j: int|
            0 <= i < j < nodes.len() ==> (#[trigger] nodes[i]).id != (#[trigger] nodes[j]).id,
    decreases nodes.len(),
{
    if nodes.len() > 0 {
        let front = nodes.drop_last();
        let n = nodes.len() - 1;
        ids_differ(front);
        assert forall|k: int| 0 <= k < front.len() implies #[trigger] front[k] == nodes[k] by {}
        if id_problems(nodes).len() == 0 {
            assert forall|i: int, j: int| 0 <= i < j < nodes.len() implies (
            #[trigger] nodes[i]).id != (#[trigger] nodes[j]).id by {
                assert(front[i] == nodes[i]);
                if j < n {
                    assert(front[j] == nodes[j]);
                }
            }
        }
        if forall|i: int, j: int|
            0 <= i < j < nodes.len() ==> (#[trigger] nodes[i]).id != (#[trigger] nodes[j]).id {
            if has_id(front, nodes.last().id) {
                let i = choose|i: int|
                    0 <= i < front.len() && (#[trigger] front[i]).id == nodes.last().id;
                assert(nodes[i].id != nodes[n].id);
            }
            assert forall|i: int, j: int| 0 <= i < j < front.len() implies (
            #[trigger] front[i]).id != (#[trigger] front[j]).id by {
                assert(nodes[i].id != nodes[j].id);
            }
        }
    }
}

proof fn loop_has_no_problems(node: NodeJsonView)
    ensures
        loop_problems(node).len() == 0 <==> loop_is_complete(node),
{
}

proof fn loops_are_complete(nodes: Seq<NodeJsonView>)
    ensures
        attr_problems(nodes).len() == 0 <==> forall|i: int|
            0 <= i < nodes.len() && (#[trigger] nodes[i]).node_type == "while_node"@
                ==> loop_is_complete(nodes[i]),
    decreases nodes.len(),
{
    if nodes.len() > 0 {
        let front = nodes.drop_last();
        loops_are_complete(front);
        loop_has_no_problems(nodes.last());
        assert(nodes[nodes.len() - 1] == nodes.last());
        assert forall|k: int| 0 <= k < front.len() implies #[trigger] front[k] == nodes[k] by {}
        if forall|i: int|
            0 <= i < front.len() && (#[trigger] front[i]).node_type == "while_node"@
                ==> loop_is_complete(front[i]) {
            assert forall|i: int|
                0 <= i < nodes.len() - 1 && (#[trigger] nodes[i]).node_type == "while_node"@
                implies loop_is_complete(nodes[i]) by {
                assert(front[i] == nodes[i]);
            }
        }
    }
}

proof fn contained_in_sum(
    a: Seq<ValidationErrorView>,
    b: Seq<ValidationErrorView>,
    e: ValidationErrorView,
)
    ensures
        a.contains(e) || b.contains(e) ==> (a + b).contains(e),
{
    if a.contains(e) {
        let i = choose|i: int| 0 <= i < a.len() && a[i] == e;
        assert((a + b)[i] == e);
    }
    if b.contains(e) {
        let i = choose|i: int| 0 <= i < b.len() && b[i] == e;
        assert((a + b)[a.len() + i] == e);
    }
}

/// Everything that is wrong is reported, not just the first: each choice that leads
/// nowhere, each input that comes from nowhere and each node of an unknown type, with the
/// place where it stands.
pub proof fn every_fault_is_reported(
    c: WorkflowConfigView,
    types: Seq<Seq<char>>,
    i: int,
    k: int,
)
    requires
        0 <= i < c.nodes.len(),
    ensures
        ({
            let node = c.nodes[i];
            let all = config_problems(c, types);
            &&& 0 <= k < node.choice_map.len() && !may_lead_to(c, node.choice_map[k].1)
                ==> all.contains(
                ValidationErrorView {
                    location: "node="@ + node.node_name + ", choice_map."@ + node.choice_map[k].0,
                    message: "Target node '"@ + node.choice_map[k].1 + "' not found"@,
                    suggestion: "Add a node with name '"@ + node.choice_map[k].1
                        + "' or change the target to an existing node"@,
                },
            )
            &&& 0 <= k < node.input_map.len() && !may_come_from(c, node.input_map[k].1)
                ==> all.contains(
                ValidationErrorView {
                    location: "node="@ + node.node_name + ", input_map."@ + node.input_map[k].0,
                    message: "Source node '"@ + split_text(node.input_map[k].1->0, '.')[0]
                        + "' not found in parameter reference '"@ + node.input_map[k].1->0 + "'"@,
                    suggestion: "Ensure node '"@ + split_text(node.input_map[k].1->0, '.')[0]
                        + "' exists or correct the parameter reference"@,
                },
            )
            &&& !types.contains(node.node_type) ==> all.contains(
                ValidationErrorView {
                    location: "node="@ + node.node_name,
                    message: "Node type '"@ + node.node_type + "' not registered"@,
                    suggestion: "Register the node type '"@ + node.node_type
                        + "' or use a registered type: "@ + debug_list(types),
                },
            )
        }),
{
    let node = c.nodes[i];
    let ids = id_problems(c.nodes);
    let start = start_problems(c);
    let choices = choice_problems(c.nodes, c.nodes);
    let inputs = input_problems(c, c.nodes);
    let kinds = type_problems(types, c.nodes);
    let attrs = attr_problems(c.nodes);
    assert forall|e: ValidationErrorView|
        choices.contains(e) || inputs.contains(e) || kinds.contains(e) implies config_problems(
        c,
        types,
    ).contains(e) by {
        contained_in_sum(ids + start, choices, e);
        contained_in_sum(ids + start + choices, inputs, e);
        contained_in_sum(ids + start + choices + inputs, kinds, e);
        contained_in_sum(ids + start + choices + inputs + kinds, attrs, e);
    }
    if 0 <= k < node.choice_map.len() && !may_lead_to(c, node.choice_map[k].1) {
        choice_is_reported(c, c.nodes, i, k);
    }
    if 0 <= k < node.input_map.len() && !may_come_from(c, node.input_map[k].1) {
        input_is_reported(c, c.nodes, i, k);
    }
    if !types.contains(node.node_type) {
        type_is_reported(types, c.nodes, i);
    }
}

proof fn target_is_reported(
    c: WorkflowConfigView,
    name: Seq<char>,
    choices: Seq<(Seq<char>, Seq<char>)>,
    k: int,
)
    requires
        0 <= k < choices.len(),
        !may_lead_to(c, choices[k].1),
    ensures
        target_problems(c.nodes, name, choices).contains(
            ValidationErrorView {
                location: "node="@ + name + ", choice_map."@ + choices[k].0,
                message: "Target node '"@ + choices[k].1 + "' not found"@,
                suggestion: "Add a node with name '"@ + choices[k].1
                    + "' or change the target to an existing node"@,
            },
        ),
    decreases choices.len(),
{
    let all = target_problems(c.nodes, name, choices);
    let e = ValidationErrorView {
        location: "node="@ + name + ", choice_map."@ + choices[k].0,
        message: "Target node '"@ + choices[k].1 + "' not found"@,
        suggestion: "Add a node with name '"@ + choices[k].1
            + "' or change the target to an existing node"@,
    };
    same_names(c, choices.last().1);
    if k < choices.len() - 1 {
        let front = choices.drop_last();
        assert(front[k] == choices[k]);
        target_is_reported(c, name, front, k);
        let before = target_problems(c.nodes, name, front);
        assert(all =~= before + all.skip(before.len() as int));
        contained_in_sum(before, all.skip(before.len() as int), e);
    } else {
        assert(all[all.len() - 1] == e);
    }
}

proof fn choice_is_reported(
    c: WorkflowConfigView,
    nodes: Seq<NodeJsonView>,
    i: int,
    k: int,
)
    requires
        0 <= i < nodes.len(),
        0 <= k < nodes[i].choice_map.len(),
        !may_lead_to(c, nodes[i].choice_map[k].1),
    ensures
        choice_problems(c.nodes, nodes).contains(
            ValidationErrorView {
                location: "node="@ + nodes[i].node_name + ", choice_map."@
                    + nodes[i].choice_map[k].0,
                message: "Target node '"@ + nodes[i].choice_map[k].1 + "' not found"@,
                suggestion: "Add a node with name '"@ + nodes[i].choice_map[k].1
                    + "' or change the target to an existing node"@,
            },
        ),
    decreases nodes.len(),
{
    let e = ValidationErrorView {
        location: "node="@ + nodes[i].node_name + ", choice_map."@ + nodes[i].choice_map[k].0,
        message: "Target node '"@ + nodes[i].choice_map[k].1 + "' not found"@,
        suggestion: "Add a node with name '"@ + nodes[i].choice_map[k].1
            + "' or change the target to an existing node"@,
    };
    let front = nodes.drop_last();
    let last = nodes.last();
    let own = target_problems(c.nodes, last.node_name, last.choice_map);
    if i < nodes.len() - 1 {
        assert(front[i] == nodes[i]);
        choice_is_reported(c, front, i, k);
    } else {
        target_is_reported(c, last.node_name, last.choice_map, k);
    }
    contained_in_sum(choice_problems(c.nodes, front), own, e);
}

spec fn source_fault(
    name: Seq<char>,
    input: (Seq<char>, Option<Seq<char>>),
) -> ValidationErrorView {
    ValidationErrorView {
        location: "node="@ + name + ", input_map."@ + input.0,
        message: "Source node '"@ + split_text(input.1->0, '.')[0]
            + "' not found in parameter reference '"@ + input.1->0 + "'"@,
        suggestion: "Ensure node '"@ + split_text(input.1->0, '.')[0]
            + "' exists or correct the parameter reference"@,
    }
}

proof fn source_is_reported(
    c: WorkflowConfigView,
    name: Seq<char>,
    inputs: Seq<(Seq<char>, Option<Seq<char>>)>,
    k: int,
)
    requires
        0 <= k < inputs.len(),
        !may_come_from(c, inputs[k].1),
    ensures
        source_problems(c, name, inputs).contains(source_fault(name, inputs[k])),
    decreases inputs.len(),
{
    let all = source_problems(c, name, inputs);
    let e = source_fault(name, inputs[k]);
    if k < inputs.len() - 1 {
        let front = inputs.drop_last();
        assert(front[k] == inputs[k]);
        source_is_reported(c, name, front, k);
        let before = source_problems(c, name, front);
        assert(all =~= before + all.skip(before.len() as int));
        contained_in_sum(before, all.skip(before.len() as int), e);
    } else {
        source_is_known(c, inputs[k].1->0);
        assert(all[all.len() - 1] == e);
    }
}

proof fn input_is_reported(c: WorkflowConfigView, nodes: Seq<NodeJsonView>, i: int, k: int)
    requires
        0 <= i < nodes.len(),
        0 <= k < nodes[i].input_map.len(),
        !may_come_from(c, nodes[i].input_map[k].1),
    ensures
        input_problems(c, nodes).contains(
            source_fault(nodes[i].node_name, nodes[i].input_map[k]),
        ),
    decreases nodes.len(),
{
    let e = source_fault(nodes[i].node_name, nodes[i].input_map[k]);
    let front = nodes.drop_last();
    let last = nodes.last();
    let own = source_problems(c, last.node_name, last.input_map);
    if i < nodes.len() - 1 {
        assert(front[i] == nodes[i]);
        input_is_reported(c, front, i, k);
    } else {
        source_is_reported(c, last.node_name, last.input_map, k);
    }
    contained_in_sum(input_problems(c, front), own, e);
}

proof fn type_is_reported(types: Seq<Seq<char>>, nodes: Seq<NodeJsonView>, i: int)
    requires
        0 <= i < nodes.len(),
        !types.contains(nodes[i].node_type),
    ensures
        type_problems(types, nodes).contains(
            ValidationErrorView {
                location: "node="@ + nodes[i].node_name,
                message: "Node type '"@ + nodes[i].node_type + "' not registered"@,
                suggestion: "Register the node type '"@ + nodes[i].node_type
                    + "' or use a registered type: "@ + debug_list(types),
            },
        ),
    decreases nodes.len(),
{
    let all = type_problems(types, nodes);
    let e = ValidationErrorView {
        location: "node="@ + nodes[i].node_name,
        message: "Node type '"@ + nodes[i].node_type + "' not registered"@,
        suggestion: "Register the node type '"@ + nodes[i].node_type
            + "' or use a registered type: "@ + debug_list(types),
    };
    if i < nodes.len() - 1 {
        let front = nodes.drop_last();
        assert(front[i] == nodes[i]);
        type_is_reported(types, front, i);
        let before = type_problems(types, front);
        assert(all =~= before + all.skip(before.len() as int));
        contained_in_sum(before, all.skip(before.len() as int), e);
    } else {
        assert(all[all.len() - 1] == e);
    }
}

/// What is wrong with a loop is reported, all of it: what it lacks of a place in memory, a
/// test, a limit above zero and its two choices.
pub proof fn every_lack_of_a_loop_is_reported(node: NodeJsonView)
    ensures
        ({
            let all = loop_problems(node);
            &&& assoc(node.attrs, "memory_key"@) is None ==> all.contains(
                ValidationErrorView {
                    location: "node="@ + node.node_name,
                    message: "while_node requires 'memory_key' attribute"@,
                    suggestion: "Add 'memory_key' to attrs with a string value"@,
                },
            )
            &&& assoc(node.attrs, "condition_type"@) is None ==> all.contains(
                ValidationErrorView {
                    location: "node="@ + node.node_name,
                    message: "while_node requires 'condition_type' attribute"@,
                    suggestion:
                        "Add 'condition_type' to attrs (e.g., 'less_than', 'greater_than', 'equals')"@,
                },
            )
            &&& assoc(node.attrs, "max_iterations"@) is None ==> all.contains(
                ValidationErrorView {
                    location: "node="@ + node.node_name,
                    message: "while_node requires 'max_iterations' attribute"@,
                    suggestion: "Add 'max_iterations' to attrs with a positive integer value"@,
                },
            )
            &&& (assoc(node.attrs, "max_iterations"@) matches Some(v) && !(
            v matches JsonView::Number(NumberView::PosInt(_)))) ==> all.contains(
                ValidationErrorView {
                    location: "node="@ + node.node_name,
                    message: "max_iterations must be a positive integer"@,
                    suggestion:
                        "Set max_iterations to a positive integer value (not negative, float, or string)"@,
                },
            )
            &&& assoc(node.attrs, "max_iterations"@) == Some(
                JsonView::Number(NumberView::PosInt(0)),
            ) ==> all.contains(
                ValidationErrorView {
                    location: "node="@ + node.node_name,
                    message: "max_iterations must be greater than 0"@,
                    suggestion: "Set max_iterations to a positive integer"@,
                },
            )
            &&& assoc(node.choice_map, "continue"@) is None || assoc(
                node.choice_map,
                "exit"@,
            ) is None ==> all.contains(
                ValidationErrorView {
                    location: "node="@ + node.node_name,
                    message: "while_node requires both 'continue' and 'exit' in choice_map"@,
                    suggestion: "Add both 'continue' and 'exit' keys to choice_map"@,
                },
            )
            &&& assoc(node.attrs, "condition_type"@) matches Some(JsonView::Text(word))
                ==> lacks_compare(node.attrs) ==> all.contains(
                ValidationErrorView {
                    location: "node="@ + node.node_name,
                    message: "condition_type '"@ + word + "' requires 'compare_value' attribute"@,
                    suggestion: "Add 'compare_value' to attrs"@,
                },
            )
        }),
{
    let name = node.node_name;
    let memory = problem_if(
        assoc(node.attrs, "memory_key"@) is None,
        name,
        "while_node requires 'memory_key' attribute"@,
        "Add 'memory_key' to attrs with a string value"@,
    );
    let condition = problem_if(
        assoc(node.attrs, "condition_type"@) is None,
        name,
        "while_node requires 'condition_type' attribute"@,
        "Add 'condition_type' to attrs (e.g., 'less_than', 'greater_than', 'equals')"@,
    );
    let limit = limit_problems(name, assoc(node.attrs, "max_iterations"@));
    let compare = match assoc(node.attrs, "condition_type"@) {
        Some(JsonView::Text(word)) => problem_if(
            lacks_compare(node.attrs),
            name,
            "condition_type '"@ + word + "' requires 'compare_value' attribute"@,
            "Add 'compare_value' to attrs"@,
        ),
        _ => Seq::empty(),
    };
    let choices = problem_if(
        assoc(node.choice_map, "continue"@) is None || assoc(node.choice_map, "exit"@) is None,
        name,
        "while_node requires both 'continue' and 'exit' in choice_map"@,
        "Add both 'continue' and 'exit' keys to choice_map"@,
    );
    if assoc(node.attrs, "memory_key"@) is None {
        let e = ValidationErrorView {
            location: "node="@ + node.node_name,
            message: "while_node requires 'memory_key' attribute"@,
            suggestion: "Add 'memory_key' to attrs with a string value"@,
        };
        assert(memory[0] == e);
        joined_five(memory, condition, limit, compare, choices, e);
    }
    if assoc(node.attrs, "condition_type"@) is None {
        let e = ValidationErrorView {
            location: "node="@ + node.node_name,
            message: "while_node requires 'condition_type' attribute"@,
            suggestion:
                "Add 'condition_type' to attrs (e.g., 'less_than', 'greater_than', 'equals')"@,
        };
        assert(condition[0] == e);
        joined_five(memory, condition, limit, compare, choices, e);
    }
    if assoc(node.attrs, "max_iterations"@) is None {
        let e = ValidationErrorView {
            location: "node="@ + node.node_name,
            message: "while_node requires 'max_iterations' attribute"@,
            suggestion: "Add 'max_iterations' to attrs with a positive integer value"@,
        };
        assert(limit[0] == e);
        joined_five(memory, condition, limit, compare, choices, e);
    }
    if (assoc(node.attrs, "max_iterations"@) matches Some(v) && !(
            v matches JsonView::Number(NumberView::PosInt(_)))) {
        let e = ValidationErrorView {
            location: "node="@ + node.node_name,
            message: "max_iterations must be a positive integer"@,
            suggestion:
                "Set max_iterations to a positive integer value (not negative, float, or string)"@,
        };
        assert(limit[0] == e);
        joined_five(memory, condition, limit, compare, choices, e);
    }
    if assoc(node.attrs, "max_iterations"@) == Some(
                JsonView::Number(NumberView::PosInt(0)),
            ) {
        let e = ValidationErrorView {
            location: "node="@ + node.node_name,
            message: "max_iterations must be greater than 0"@,
            suggestion: "Set max_iterations to a positive integer"@,
        };
        assert(limit[0] == e);
        joined_five(memory, condition, limit, compare, choices, e);
    }
    if assoc(node.choice_map, "continue"@) is None || assoc(node.choice_map, "exit"@) is None {
        let e = ValidationErrorView {
            location: "node="@ + node.node_name,
            message: "while_node requires both 'continue' and 'exit' in choice_map"@,
            suggestion: "Add both 'continue' and 'exit' keys to choice_map"@,
        };
        assert(choices[0] == e);
        joined_five(memory, condition, limit, compare, choices, e);
    }
    if let Some(JsonView::Text(word)) = assoc(node.attrs, "condition_type"@) {
        if lacks_compare(node.attrs) {
            let e = ValidationErrorView {
                location: "node="@ + node.node_name,
                message: "condition_type '"@ + word + "' requires 'compare_value' attribute"@,
                suggestion: "Add 'compare_value' to attrs"@,
            };
            assert(compare[0] == e);
            joined_five(memory, condition, limit, compare, choices, e);
        }
    }
}

proof fn joined_five(
    a: Seq<ValidationErrorView>,
    b: Seq<ValidationErrorView>,
    c: Seq<ValidationErrorView>,
    d: Seq<ValidationErrorView>,
    e: Seq<ValidationErrorView>,
    x: ValidationErrorView,
)
    ensures
        a.contains(x) || b.contains(x) || c.contains(x) || d.contains(x) || e.contains(x) ==> (a + b
            + c + d + e).contains(x),
{
    contained_in_sum(a, b, x);
    contained_in_sum(a + b, c, x);
    contained_in_sum(a + b + c, d, x);
    contained_in_sum(a + b + c + d, e, x);
}

/// A start node that is no node, an id that two nodes have, and all that is wrong with a
/// loop are reported.
pub proof fn start_ids_and_loops_are_reported(
    c: WorkflowConfigView,
    types: Seq<Seq<char>>,
    i: int,
    j: int,
    e: ValidationErrorView,
)
    requires
        0 <= i < c.nodes.len(),
        0 <= j < c.nodes.len(),
    ensures
        !is_node(c, c.start_node) ==> config_problems(c, types).contains(
            (ValidationErrorView {
                location: "start_node"@,
                message: "Start node '"@ + c.start_node + "' not found in nodes list"@,
                suggestion: "Add a node with name '"@ + c.start_node
                    + "' or change start_node to an existing node name"@,
            }),
        ),
        i < j && c.nodes[i].id == c.nodes[j].id ==> config_problems(c, types).contains(
            (ValidationErrorView {
                location: "node_id="@ + decimal(c.nodes[j].id as nat),
                message: "Duplicate node ID: "@ + decimal(c.nodes[j].id as nat),
                suggestion:
                    "Each node must have a unique ID. Change the duplicate ID to a unique value."@,
            }),
        ),
        c.nodes[i].node_type == "while_node"@ && loop_problems(c.nodes[i]).contains(e)
            ==> config_problems(c, types).contains(e),
{
    let ids = id_problems(c.nodes);
    let start = start_problems(c);
    let choices = choice_problems(c.nodes, c.nodes);
    let inputs = input_problems(c, c.nodes);
    let kinds = type_problems(types, c.nodes);
    let attrs = attr_problems(c.nodes);
    assert forall|x: ValidationErrorView|
        ids.contains(x) || start.contains(x) || attrs.contains(x) implies config_problems(
        c,
        types,
    ).contains(x) by {
        contained_in_sum(ids, start, x);
        contained_in_sum(ids + start, choices, x);
        contained_in_sum(ids + start + choices, inputs, x);
        contained_in_sum(ids + start + choices + inputs, kinds, x);
        contained_in_sum(ids + start + choices + inputs + kinds, attrs, x);
    }
    same_names(c, c.start_node);
    if !is_node(c, c.start_node) {
        assert(start.contains(start[0]));
    }
    if i < j && c.nodes[i].id == c.nodes[j].id {
        id_is_reported(c.nodes, i, j);
    }
    if c.nodes[i].node_type == "while_node"@ && loop_problems(c.nodes[i]).contains(e) {
        loop_is_reported(c.nodes, i, e);
    }
}

proof fn id_is_reported(nodes: Seq<NodeJsonView>, i: int, j: int)
    requires
        0 <= i < j < nodes.len(),
        nodes[i].id == nodes[j].id,
    ensures
        id_problems(nodes).contains(
            (ValidationErrorView {
                location: "node_id="@ + decimal(nodes[j].id as nat),
                message: "Duplicate node ID: "@ + decimal(nodes[j].id as nat),
                suggestion:
                    "Each node must have a unique ID. Change the duplicate ID to a unique value."@,
            }),
        ),
    decreases nodes.len(),
{
    let front = nodes.drop_last();
    let all = id_problems(nodes);
    let before = id_problems(front);
    let e = ValidationErrorView {
        location: "node_id="@ + decimal(nodes[j].id as nat),
        message: "Duplicate node ID: "@ + decimal(nodes[j].id as nat),
        suggestion: "Each node must have a unique ID. Change the duplicate ID to a unique value."@,
    };
    assert(front[i] == nodes[i]);
    if j < nodes.len() - 1 {
        assert(front[j] == nodes[j]);
        id_is_reported(front, i, j);
        assert(all =~= before + all.skip(before.len() as int));
        contained_in_sum(before, all.skip(before.len() as int), e);
    } else {
        assert(has_id(front, nodes[j].id));
        assert(all[all.len() - 1] == e);
    }
}

proof fn loop_is_reported(nodes: Seq<NodeJsonView>, i: int, e: ValidationErrorView)
    requires
        0 <= i < nodes.len(),
        nodes[i].node_type == "while_node"@,
        loop_problems(nodes[i]).contains(e),
    ensures
        attr_problems(nodes).contains(e),
    decreases nodes.len(),
{
    let front = nodes.drop_last();
    if i < nodes.len() - 1 {
        assert(front[i] == nodes[i]);
        loop_is_reported(front, i, e);
    }
    contained_in_sum(attr_problems(front), loop_problems(nodes.last()), e);
}

/// The errors come in order: those of the ids, of the start node, of the choices, of the
/// inputs, of the types and of the loops; and within each of these node by node, choice by
/// choice and input by input, with no more than one error for a choice, an input or a type.
pub proof fn errors_come_in_order(
    c: WorkflowConfigView,
    types: Seq<Seq<char>>,
    a: Seq<NodeJsonView>,
    b: Seq<NodeJsonView>,
    node: NodeJsonView,
    k: int,
)
    ensures
        config_problems(c, types) == id_problems(c.nodes) + start_problems(c) + choice_problems(
            c.nodes,
            c.nodes,
        ) + input_problems(c, c.nodes) + type_problems(types, c.nodes) + attr_problems(c.nodes),
        choice_problems(c.nodes, a + b) == choice_problems(c.nodes, a) + choice_problems(
            c.nodes,
            b,
        ),
        input_problems(c, a + b) == input_problems(c, a) + input_problems(c, b),
        type_problems(types, a + b) == type_problems(types, a) + type_problems(types, b),
        attr_problems(a + b) == attr_problems(a) + attr_problems(b),
        choice_problems(c.nodes, seq![node]) == target_problems(
            c.nodes,
            node.node_name,
            node.choice_map,
        ),
        input_problems(c, seq![node]) == source_problems(c, node.node_name, node.input_map),
        type_problems(types, seq![node]).len() <= 1,
        node.node_type == "while_node"@ ==> attr_problems(seq![node]) == loop_problems(node),
        node.node_type != "while_node"@ ==> attr_problems(seq![node]).len() == 0,
        0 <= k <= node.choice_map.len() ==> target_problems(
            c.nodes,
            node.node_name,
            node.choice_map,
        ) == target_problems(c.nodes, node.node_name, node.choice_map.take(k)) + target_problems(
            c.nodes,
            node.node_name,
            node.choice_map.skip(k),
        ),
        target_problems(c.nodes, node.node_name, node.choice_map).len() <= node.choice_map.len(),
        0 <= k <= node.input_map.len() ==> source_problems(c, node.node_name, node.input_map)
            == source_problems(c, node.node_name, node.input_map.take(k)) + source_problems(
            c,
            node.node_name,
            node.input_map.skip(k),
        ),
        source_problems(c, node.node_name, node.input_map).len() <= node.input_map.len(),
{
    choices_in_order(c.nodes, a, b);
    inputs_in_order(c, a, b);
    types_in_order(types, a, b);
    loops_in_order(a, b);
    reveal_with_fuel(choice_problems, 2);
    reveal_with_fuel(input_problems, 2);
    reveal_with_fuel(type_problems, 2);
    reveal_with_fuel(attr_problems, 2);
    assert(seq![node].drop_last() =~= Seq::empty());
    assert(seq![node].last() == node);
    let none = Seq::<ValidationErrorView>::empty();
    let targets = target_problems(c.nodes, node.node_name, node.choice_map);
    let sources = source_problems(c, node.node_name, node.input_map);
    assert(none + targets =~= targets);
    assert(none + sources =~= sources);
    assert(none + loop_problems(node) =~= loop_problems(node));
    if 0 <= k <= node.choice_map.len() {
        targets_in_order(
            c.nodes,
            node.node_name,
            node.choice_map.take(k),
            node.choice_map.skip(k),
        );
        assert(node.choice_map.take(k) + node.choice_map.skip(k) =~= node.choice_map);
    }
    if 0 <= k <= node.input_map.len() {
        sources_in_order(c, node.node_name, node.input_map.take(k), node.input_map.skip(k));
        assert(node.input_map.take(k) + node.input_map.skip(k) =~= node.input_map);
    }
    one_error_each(c, node.node_name, node.choice_map, node.input_map);
}

proof fn one_error_each(
    c: WorkflowConfigView,
    name: Seq<char>,
    choices: Seq<(Seq<char>, Seq<char>)>,
    inputs: Seq<(Seq<char>, Option<Seq<char>>)>,
)
    ensures
        target_problems(c.nodes, name, choices).len() <= choices.len(),
        source_problems(c, name, inputs).len() <= inputs.len(),
    decreases choices.len() + inputs.len(),
{
    if choices.len() > 0 {
        one_error_each(c, name, choices.drop_last(), inputs);
    } else if inputs.len() > 0 {
        one_error_each(c, name, choices, inputs.drop_last());
    }
}

proof fn targets_in_order(
    all: Seq<NodeJsonView>,
    name: Seq<char>,
    a: Seq<(Seq<char>, Seq<char>)>,
    b: Seq<(Seq<char>, Seq<char>)>,
)
    ensures
        target_problems(all, name, a + b) == target_problems(all, name, a) + target_problems(all, name, b),
    decreases b.len(),
{
    if b.len() == 0 {
        assert(a + b =~= a);
        assert(target_problems(all, name, a) + target_problems(all, name, b) =~= target_problems(all, name, a));
    } else {
        targets_in_order(all, name, a, b.drop_last());
        assert((a + b).drop_last() =~= a + b.drop_last());
        assert((a + b).last() == b.last());
        assert(target_problems(all, name, a + b) =~= target_problems(all, name, a) + target_problems(all, name, b));
    }
}

proof fn choices_in_order(
    all: Seq<NodeJsonView>,
    a: Seq<NodeJsonView>,
    b: Seq<NodeJsonView>,
)
    ensures
        choice_problems(all, a + b) == choice_problems(all, a) + choice_problems(all, b),
    decreases b.len(),
{
    if b.len() == 0 {
        assert(a + b =~= a);
        assert(choice_problems(all, a) + choice_problems(all, b) =~= choice_problems(all, a));
    } else {
        choices_in_order(all, a, b.drop_last());
        assert((a + b).drop_last() =~= a + b.drop_last());
        assert((a + b).last() == b.last());
        assert(choice_problems(all, a + b) =~= choice_problems(all, a) + choice_problems(all, b));
    }
}

proof fn sources_in_order(
    c: WorkflowConfigView,
    name: Seq<char>,
    a: Seq<(Seq<char>, Option<Seq<char>>)>,
    b: Seq<(Seq<char>, Option<Seq<char>>)>,
)
    ensures
        source_problems(c, name, a + b) == source_problems(c, name, a) + source_problems(c, name, b),
    decreases b.len(),
{
    if b.len() == 0 {
        assert(a + b =~= a);
        assert(source_problems(c, name, a) + source_problems(c, name, b) =~= source_problems(c, name, a));
    } else {
        sources_in_order(c, name, a, b.drop_last());
        assert((a + b).drop_last() =~= a + b.drop_last());
        assert((a + b).last() == b.last());
        assert(source_problems(c, name, a + b) =~= source_problems(c, name, a) + source_problems(c, name, b));
    }
}

proof fn inputs_in_order(
    c: WorkflowConfigView,
    a: Seq<NodeJsonView>,
    b: Seq<NodeJsonView>,
)
    ensures
        input_problems(c, a + b) == input_problems(c, a) + input_problems(c, b),
    decreases b.len(),
{
    if b.len() == 0 {
        assert(a + b =~= a);
        assert(input_problems(c, a) + input_problems(c, b) =~= input_problems(c, a));
    } else {
        inputs_in_order(c, a, b.drop_last());
        assert((a + b).drop_last() =~= a + b.drop_last());
        assert((a + b).last() == b.last());
        assert(input_problems(c, a + b) =~= input_problems(c, a) + input_problems(c, b));
    }
}

proof fn types_in_order(
    types: Seq<Seq<char>>,
    a: Seq<NodeJsonView>,
    b: Seq<NodeJsonView>,
)
    ensures
        type_problems(types, a + b) == type_problems(types, a) + type_problems(types, b),
    decreases b.len(),
{
    if b.len() == 0 {
        assert(a + b =~= a);
        assert(type_problems(types, a) + type_problems(types, b) =~= type_problems(types, a));
    } else {
        types_in_order(types, a, b.drop_last());
        assert((a + b).drop_last() =~= a + b.drop_last());
        assert((a + b).last() == b.last());
        assert(type_problems(types, a + b) =~= type_problems(types, a) + type_problems(types, b));
    }
}

proof fn loops_in_order(
    a: Seq<NodeJsonView>,
    b: Seq<NodeJsonView>,
)
    ensures
        attr_problems(a + b) == attr_problems(a) + attr_problems(b),
    decreases b.len(),
{
    if b.len() == 0 {
        assert(a + b =~= a);
        assert(attr_problems(a) + attr_problems(b) =~= attr_problems(a));
    } else {
        loops_in_order(a, b.drop_last());
        assert((a + b).drop_last() =~= a + b.drop_last());
        assert((a + b).last() == b.last());
        assert(attr_problems(a + b) =~= attr_problems(a) + attr_problems(b));
    }
}

} // verus!
