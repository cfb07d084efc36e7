//! The configuration of workflows and their nodes, and how the files of a directory
//! make one set of them.
use vstd::prelude::*;

use crate::context_sync::{ContextSyncConfig, SyncView};
use crate::error::{option_view, unit_view, ErrorView, WorkflowError};
use crate::node::base::{InputSource, NodeConfig, NodeConfigView};
use crate::string_map::{
    assoc, assoc_after_insert, assoc_insert, assoc_some_iff, sorted, Duplicate, StringMap,
};
use crate::text::{cat2, cat4, text_eq, text_less, text_less_irreflexive};
use crate::value::{Json, JsonView};

verus! {

/// The configuration of a node, with its type.
#[derive(Debug)]
pub struct NodeConfigJson {
    pub id: u32,
    pub node_type: String,
    pub node_name: String,
    pub input_map: StringMap<InputSource>,
    pub choice_map: StringMap<String>,
    pub attrs: StringMap<Json>,
    pub key_node: bool,
}

/// What the configuration of a node holds.
#[verifier::ext_equal]
pub struct NodeJsonView {
    pub id: u32,
    pub node_type: Seq<char>,
    pub node_name: Seq<char>,
    pub input_map: Seq<(Seq<char>, Option<Seq<char>>)>,
    pub choice_map: Seq<(Seq<char>, Seq<char>)>,
    pub attrs: Seq<(Seq<char>, JsonView)>,
    pub key_node: bool,
}

impl View for NodeConfigJson {
    type V = NodeJsonView;

    open spec fn view(&self) -> NodeJsonView {
        NodeJsonView {
            id: self.id,
            node_type: self.node_type@,
            node_name: self.node_name@,
            input_map: self.input_map@,
            choice_map: self.choice_map@,
            attrs: self.attrs@,
            key_node: self.key_node,
        }
    }
}

impl NodeJsonView {
    /// The configuration without the type.
    pub open spec fn config(self) -> NodeConfigView {
        NodeConfigView {
            id: self.id,
            node_name: self.node_name,
            input_map: self.input_map,
            choice_map: self.choice_map,
            attrs: self.attrs,
            key_node: self.key_node,
        }
    }
}

impl NodeConfigJson {
    /// The configuration without the type.
    pub fn to_node_config(&self) -> (r: NodeConfig)
        ensures
            r@ == self@.config(),
    {
        NodeConfig {
            id: self.id,
            node_name: self.node_name.clone(),
            input_map: self.input_map.duplicate(),
            choice_map: self.choice_map.duplicate(),
            attrs: self.attrs.duplicate(),
            key_node: self.key_node,
        }
    }
}

/// The configuration of a workflow.
#[derive(Debug)]
pub struct WorkflowConfig {
    pub start_node: String,
    pub listen_at_start: Option<bool>,
    /// The name of the type of each input parameter.
    pub input_parameters: StringMap<String>,
    pub nodes: Vec<NodeConfigJson>,
    pub context_sync: Option<ContextSyncConfig>,
}

/// What the configuration of a workflow holds.
#[verifier::ext_equal]
pub struct WorkflowConfigView {
    pub start_node: Seq<char>,
    pub listen_at_start: Option<bool>,
    pub input_parameters: Seq<(Seq<char>, Seq<char>)>,
    pub nodes: Seq<NodeJsonView>,
    pub context_sync: Option<SyncView>,
}

/// The views of a list of node configurations.
pub open spec fn node_views(v: Seq<NodeConfigJson>) -> Seq<NodeJsonView> {
    Seq::new(v.len(), |i: int| v[i]@)
}

impl View for WorkflowConfig {
    type V = WorkflowConfigView;

    open spec fn view(&self) -> WorkflowConfigView {
        WorkflowConfigView {
            start_node: self.start_node@,
            listen_at_start: self.listen_at_start,
            input_parameters: self.input_parameters@,
            nodes: node_views(self.nodes@),
            context_sync: option_view(self.context_sync),
        }
    }
}

impl Duplicate for NodeConfigJson {
    fn duplicate(&self) -> (r: NodeConfigJson) {
        NodeConfigJson {
            id: self.id,
            node_type: self.node_type.clone(),
            node_name: self.node_name.clone(),
            input_map: self.input_map.duplicate(),
            choice_map: self.choice_map.duplicate(),
            attrs: self.attrs.duplicate(),
            key_node: self.key_node,
        }
    }
}

impl Duplicate for WorkflowConfig {
    fn duplicate(&self) -> (r: WorkflowConfig) {
        let mut nodes: Vec<NodeConfigJson> = Vec::new();
        let mut i: usize = 0;
        while i < self.nodes.len()
            invariant
                i <= self.nodes@.len(),
                nodes@.len() == i,
                forall|j: int| 0 <= j < i ==> (#[trigger] nodes@[j])@ == self.nodes@[j]@,
            decreases self.nodes@.len() - i,
        {
            nodes.push(self.nodes[i].duplicate());
            i = i + 1;
        }
        proof {
            assert(node_views(nodes@) =~= node_views(self.nodes@));
        }
        WorkflowConfig {
            start_node: self.start_node.clone(),
            listen_at_start: self.listen_at_start,
            input_parameters: self.input_parameters.duplicate(),
            nodes,
            context_sync: match &self.context_sync {
                Some(c) => Some(c.duplicate()),
                None => None,
            },
        }
    }
}

// ---------------------------------------------------------------------------
// The files of a directory
// ---------------------------------------------------------------------------

/// What stands at the path of a configuration directory.
#[derive(Clone, Copy, Debug, PartialEq, Eq, Structural)]
pub enum DirectoryState {
    Missing,
    NotADirectory,
    Directory,
}

/// Whether configurations can be loaded from a path.
pub fn check_config_directory(dir_path: &str, state: DirectoryState) -> (r: Result<
    (),
    WorkflowError,
>)
    ensures
        unit_view(r) == (match state {
            DirectoryState::Missing => Err(
                ErrorView::ConfigError("Configuration directory does not exist: "@ + dir_path@),
            ),
            DirectoryState::NotADirectory => Err(
                ErrorView::ConfigError("Path is not a directory: "@ + dir_path@),
            ),
            DirectoryState::Directory => Ok(()),
        }),
{
    match state {
        DirectoryState::Missing => Err(
            WorkflowError::ConfigError(
                cat2("Configuration directory does not exist: ", dir_path),
            ),
        ),
        DirectoryState::NotADirectory => Err(
            WorkflowError::ConfigError(cat2("Path is not a directory: ", dir_path)),
        ),
        DirectoryState::Directory => Ok(()),
    }
}

/// Whether a file of a configuration directory is read, by the extension of its name.
pub fn is_config_file(extension: Option<&str>) -> (r: bool)
    ensures
        r == (extension is Some && extension->0@ == "json"@),
{
    match extension {
        Some(e) => text_eq(e, "json"),
        None => false,
    }
}

/// What came of reading one configuration file.
#[derive(Debug)]
pub enum FileOutcome {
    /// The file could not be read; the wording of the error.
    ReadFailed(String),
    /// The text is not a set of configurations; the wording of the error.
    ParseFailed(String),
    /// The configurations by workflow name.
    Parsed(StringMap<WorkflowConfig>),
}

/// The configurations after those of a file were added, in order, up to the first
/// whose name is taken.
pub open spec fn add_configs(
    all: Seq<(Seq<char>, WorkflowConfigView)>,
    file: Seq<char>,
    configs: Seq<(Seq<char>, WorkflowConfigView)>,
) -> (Seq<(Seq<char>, WorkflowConfigView)>, Result<(), ErrorView>)
    decreases configs.len(),
{
    if configs.len() == 0 {
        (all, Ok(()))
    } else {
        let (name, config) = configs[0];
        if assoc(all, name) is Some {
            (
                all,
                Err(
                    ErrorView::ConfigError(
                        "Duplicate workflow name '"@ + name + "' found in file "@ + file,
                    ),
                ),
            )
        } else {
            add_configs(assoc_insert(all, name, config), file, configs.skip(1))
        }
    }
}

/// The configurations after a file was added.
pub open spec fn add_file(
    all: Seq<(Seq<char>, WorkflowConfigView)>,
    file: Seq<char>,
    outcome: FileOutcome,
) -> (Seq<(Seq<char>, WorkflowConfigView)>, Result<(), ErrorView>) {
    match outcome {
        FileOutcome::ReadFailed(e) => (
            all,
            Err(ErrorView::ConfigError("Failed to read file "@ + file + ": "@ + e@)),
        ),
        FileOutcome::ParseFailed(e) => (
            all,
            Err(ErrorView::ConfigError("Failed to parse JSON in file "@ + file + ": "@ + e@)),
        ),
        FileOutcome::Parsed(configs) => add_configs(all, file, configs@),
    }
}

/// Adds the configurations of a file to those loaded before. A name that is taken
/// is an error, as is a file that cannot be read.
pub fn load_workflow_configs(
    all: &mut StringMap<WorkflowConfig>,
    file_name: &str,
    outcome: FileOutcome,
) -> (r: Result<(), WorkflowError>)
    ensures
        final(all)@ == add_file(old(all)@, file_name@, outcome).0,
        unit_view(r) == add_file(old(all)@, file_name@, outcome).1,
        old(all).wf() ==> final(all).wf(),
{
    let configs: StringMap<WorkflowConfig> = match outcome {
        FileOutcome::ReadFailed(e) => {
            return Err(
                WorkflowError::ConfigError(
                    cat4("Failed to read file ", file_name, ": ", e.as_str()),
                ),
            );
        },
        FileOutcome::ParseFailed(e) => {
            return Err(
                WorkflowError::ConfigError(
                    cat4("Failed to parse JSON in file ", file_name, ": ", e.as_str()),
                ),
            );
        },
        FileOutcome::Parsed(configs) => configs,
    };
    let ghost target = add_configs(all@, file_name@, configs@);
    let ghost views = configs@;
    let entries = configs.entries;
    proof {
        assert(views.skip(0) =~= views);
    }
    for entry in it: entries
        invariant
            it.seq() == entries@,
            views.len() == entries@.len(),
            forall|j: int|
                0 <= j < views.len() ==> #[trigger] views[j] == (
                    entries@[j].0@,
                    entries@[j].1@,
                ),
            target == add_configs(all@, file_name@, views.skip(it.index())),
            target == add_file(old(all)@, file_name@, outcome),
            old(all).wf() ==> all.wf(),
    {
        let (name, config) = entry;
        proof {
            let k = it.index();
            assert(views.skip(k)[0] == views[k]);
            assert(views.skip(k).skip(1) =~= views.skip(k + 1));
        }
        if all.contains_key(name.as_str()) {
            return Err(
                WorkflowError::ConfigError(
                    cat4(
                        "Duplicate workflow name '",
                        name.as_str(),
                        "' found in file ",
                        file_name,
                    ),
                ),
            );
        }
        all.insert(name, config);
    }
    Ok(())
}

/// Where a file was added without error, each of its configurations is found under
/// its name, and those loaded before are as they were.
pub proof fn added_configs_are_found(
    all: Seq<(Seq<char>, WorkflowConfigView)>,
    file: Seq<char>,
    configs: Seq<(Seq<char>, WorkflowConfigView)>,
)
    requires
        add_configs(all, file, configs).1 is Ok,
    ensures
        forall|i: int|
            0 <= i < configs.len() ==> assoc(
                add_configs(all, file, configs).0,
                (#[trigger] configs[i]).0,
            ) == Some(configs[i].1),
        forall|name: Seq<char>|
            assoc(all, name) is Some ==> #[trigger] assoc(
                add_configs(all, file, configs).0,
                name,
            ) == assoc(all, name),
    decreases configs.len(),
{
    if configs.len() > 0 {
        let (name, config) = configs[0];
        let next = assoc_insert(all, name, config);
        let rest = configs.skip(1);
        let result = add_configs(all, file, configs).0;
        added_configs_are_found(next, file, rest);
        assoc_after_insert(all, name, config, name);
        assert(assoc(result, name) == Some(config));
        assert forall|i: int| 0 <= i < configs.len() implies assoc(
            result,
            (#[trigger] configs[i]).0,
        ) == Some(configs[i].1) by {
            if i > 0 {
                assert(rest[i - 1] == configs[i]);
            }
        }
        assert forall|n: Seq<char>| assoc(all, n) is Some implies #[trigger] assoc(result, n)
            == assoc(all, n) by {
            assoc_after_insert(all, name, config, n);
            assert(assoc(next, n) is Some);
        }
    }
}

/// A configuration file: its name, and what came of reading it.
pub struct ConfigFile {
    pub name: Seq<char>,
    pub outcome: FileOutcome,
}

/// The configurations after the files of a directory were added, one after the other, up
/// to the first that fails.
pub open spec fn add_files(files: Seq<ConfigFile>) -> (
    Seq<(Seq<char>, WorkflowConfigView)>,
    Result<(), ErrorView>,
)
    decreases files.len(),
{
    if files.len() == 0 {
        (Seq::empty(), Ok(()))
    } else {
        let (all, r) = add_files(files.drop_last());
        match r {
            Ok(_) => add_file(all, files.last().name, files.last().outcome),
            Err(e) => (all, Err(e)),
        }
    }
}

/// The configuration that a file has under a name.
pub open spec fn config_in(file: ConfigFile, name: Seq<char>) -> Option<WorkflowConfigView> {
    match file.outcome {
        FileOutcome::Parsed(configs) => assoc(configs@, name),
        _ => None,
    }
}

/// Whether every file was read.
pub open spec fn all_read(files: Seq<ConfigFile>) -> bool {
    forall|i: int| 0 <= i < files.len() ==> (#[trigger] files[i]).outcome is Parsed
}

/// Whether two files have a configuration of the same name.
pub open spec fn has_duplicate(files: Seq<ConfigFile>) -> bool {
    exists|i: int, j: int, name: Seq<char>|
        0 <= i < j < files.len() && (#[trigger] config_in(files[i], name)) is Some && (
        #[trigger] config_in(files[j], name)) is Some
}

/// Whether the configurations of each file stand in the order of their names.
pub open spec fn files_wf(files: Seq<ConfigFile>) -> bool {
    forall|i: int|
        0 <= i < files.len() ==> match (#[trigger] files[i]).outcome {
            FileOutcome::Parsed(configs) => configs.wf(),
            _ => true,
        }
}

proof fn added_file(
    all: Seq<(Seq<char>, WorkflowConfigView)>,
    file: Seq<char>,
    configs: Seq<(Seq<char>, WorkflowConfigView)>,
    name: Seq<char>,
)
    requires
        sorted(configs),
    ensures
        add_configs(all, file, configs).1 is Ok ==> assoc(
            add_configs(all, file, configs).0,
            name,
        ) == (if assoc(configs, name) is Some {
            assoc(configs, name)
        } else {
            assoc(all, name)
        }),
        add_configs(all, file, configs).1 is Ok <==> forall|i: int|
            0 <= i < configs.len() ==> assoc(all, (#[trigger] configs[i]).0) is None,
    decreases configs.len(),
{
    if configs.len() > 0 {
        let (first, config) = configs[0];
        let rest = configs.skip(1);
        let next = assoc_insert(all, first, config);
        assert forall|i: int, j: int| 0 <= i < j < rest.len() implies text_less(
            #[trigger] rest[i].0,
            #[trigger] rest[j].0,
        ) by {
            assert(text_less(configs[i + 1].0, configs[j + 1].0));
        }
        added_file(next, file, rest, name);
        assoc_after_insert(all, first, config, name);
        assert forall|i: int| 0 <= i < rest.len() implies assoc(next, (#[trigger] rest[i]).0)
            == assoc(all, rest[i].0) && rest[i].0 != first by {
            assert(text_less(configs[0].0, configs[i + 1].0));
            text_less_irreflexive(first);
            assoc_after_insert(all, first, config, rest[i].0);
        }
        if assoc(rest, first) is Some {
            assoc_some_iff(rest, first);
        }
        if assoc(all, first) is None {
            if forall|i: int|
                0 <= i < configs.len() ==> assoc(all, (#[trigger] configs[i]).0) is None {
                assert forall|i: int| 0 <= i < rest.len() implies assoc(
                    next,
                    (#[trigger] rest[i]).0,
                ) is None by {
                    assert(assoc(all, configs[i + 1].0) is None);
                }
            }
            if add_configs(next, file, rest).1 is Ok {
                assert forall|i: int| 0 <= i < configs.len() implies assoc(
                    all,
                    (#[trigger] configs[i]).0,
                ) is None by {
                    if i > 0 {
                        assert(assoc(next, rest[i - 1].0) is None);
                    }
                }
            }
        }
    }
}

/// What the files of a directory come to: they load exactly where each was read and no
/// two have a configuration of the same name; and then a name is found exactly where a
/// file has it, with the configuration of that file.
pub proof fn directory_holds_its_files(files: Seq<ConfigFile>, name: Seq<char>)
    requires
        files_wf(files),
    ensures
        add_files(files).1 is Ok <==> all_read(files) && !has_duplicate(files),
        add_files(files).1 is Ok ==> (assoc(add_files(files).0, name) is Some <==> exists|i: int|
            0 <= i < files.len() && config_in(#[trigger] files[i], name) is Some),
        add_files(files).1 is Ok ==> forall|i: int|
            0 <= i < files.len() && config_in(#[trigger] files[i], name) is Some ==> assoc(
                add_files(files).0,
                name,
            ) == config_in(files[i], name),
    decreases files.len(), 1nat,
{
    if files.len() > 0 {
        let front = files.drop_last();
        let last = files.last();
        let (all, r) = add_files(front);
        assert forall|i: int| 0 <= i < front.len() implies match (#[trigger] front[i]).outcome {
            FileOutcome::Parsed(configs) => configs.wf(),
            _ => true,
        } by {
            assert(files[i] == front[i]);
        }
        directory_holds_its_files(front, name);
        assert(files[files.len() - 1] == last);
        if all_read(files) {
            assert(all_read(front)) by {
                assert forall|i: int| 0 <= i < front.len() implies (
                #[trigger] front[i]).outcome is Parsed by {
                    assert(files[i] == front[i]);
                }
            }
        }
        if has_duplicate(front) {
            let (i, j, n) = choose|i: int, j: int, n: Seq<char>|
                0 <= i < j < front.len() && (#[trigger] config_in(front[i], n)) is Some && (
                #[trigger] config_in(front[j], n)) is Some;
            assert(config_in(files[i], n) is Some && config_in(files[j], n) is Some);
        }
        if r is Ok {
            if let FileOutcome::Parsed(configs) = last.outcome {
                last_file(files, name);
            } else {
                assert(!(files[files.len() - 1].outcome is Parsed));
            }
        }
    }
}

proof fn last_file(files: Seq<ConfigFile>, name: Seq<char>)
    requires
        files.len() > 0,
        files_wf(files),
        add_files(files.drop_last()).1 is Ok,
        files.last().outcome is Parsed,
    ensures
        add_files(files).1 is Ok <==> all_read(files) && !has_duplicate(files),
        add_files(files).1 is Ok ==> (assoc(add_files(files).0, name) is Some <==> exists|i: int|
            0 <= i < files.len() && config_in(#[trigger] files[i], name) is Some),
        add_files(files).1 is Ok ==> forall|i: int|
            0 <= i < files.len() && config_in(#[trigger] files[i], name) is Some ==> assoc(
                add_files(files).0,
                name,
            ) == config_in(files[i], name),
    decreases files.len(), 0nat,
{
    let front = files.drop_last();
    let last = files.last();
    let n = files.len() - 1;
    let all = add_files(front).0;
    let configs = last.outcome->Parsed_0@;
    assert(files[n] == last);
    assert forall|i: int| 0 <= i < front.len() implies #[trigger] files[i] == front[i] by {}
    assert(files_wf(front)) by {
        assert forall|i: int| 0 <= i < front.len() implies match (#[trigger] front[i]).outcome {
            FileOutcome::Parsed(configs) => configs.wf(),
            _ => true,
        } by {
            assert(files[i] == front[i]);
        }
    }
    directory_holds_its_files(front, name);
    assert(all_read(files)) by {
        assert forall|i: int| 0 <= i < files.len() implies (#[trigger] files[i]).outcome is Parsed by {
            if i < n {
                assert(front[i].outcome is Parsed);
            }
        }
    }
    added_file(all, last.name, configs, name);
    if add_files(files).1 is Ok {
        if has_duplicate(files) {
            let (i, j, d) = choose|i: int, j: int, d: Seq<char>|
                0 <= i < j < files.len() && (#[trigger] config_in(files[i], d)) is Some && (
                #[trigger] config_in(files[j], d)) is Some;
            if j < n {
                assert(config_in(front[i], d) is Some && config_in(front[j], d) is Some);
            } else {
                directory_holds_its_files(front, d);
                assert(config_in(front[i], d) is Some);
                assoc_some_iff(configs, d);
                let k = choose|k: int| 0 <= k < configs.len() && (#[trigger] configs[k]).0 == d;
                assert(assoc(all, configs[k].0) is None);
            }
        }
        if assoc(configs, name) is Some {
            assoc_some_iff(configs, name);
            let k = choose|k: int| 0 <= k < configs.len() && (#[trigger] configs[k]).0 == name;
            assert(assoc(all, configs[k].0) is None);
            assert(config_in(files[n], name) is Some);
        } else if assoc(all, name) is Some {
            let i = choose|i: int|
                0 <= i < front.len() && config_in(#[trigger] front[i], name) is Some;
            assert(config_in(files[i], name) is Some);
        }
        assert forall|i: int|
            0 <= i < files.len() && config_in(#[trigger] files[i], name) is Some implies assoc(
            add_files(files).0,
            name,
        ) == config_in(files[i], name) by {
            if i < n {
                assert(config_in(front[i], name) is Some);
            }
        }
    } else {
        let k = choose|k: int|
            0 <= k < configs.len() && assoc(all, (#[trigger] configs[k]).0) is Some;
        let d = configs[k].0;
        directory_holds_its_files(front, d);
        let i = choose|i: int| 0 <= i < front.len() && config_in(#[trigger] front[i], d) is Some;
        assoc_some_iff(configs, d);
        assert(config_in(files[i], d) is Some && config_in(files[n], d) is Some);
        assert(has_duplicate(files));
    }
}

/// The configuration of a node without its type is all the rest of it.
pub proof fn only_the_type_is_left_out(c: NodeJsonView)
    ensures
        c.config().id == c.id,
        c.config().node_name == c.node_name,
        c.config().input_map == c.input_map,
        c.config().choice_map == c.choice_map,
        c.config().attrs == c.attrs,
        c.config().key_node == c.key_node,
{
}

/// A file that fails says why: it could not be read, it is no set of configurations, or it
/// has a name that is taken, and then the error names the first such name. Nothing that was
/// loaded before is lost, and of the file just what stands before that name is kept.
pub proof fn failed_file_says_why(
    all: Seq<(Seq<char>, WorkflowConfigView)>,
    file: Seq<char>,
    outcome: FileOutcome,
    k: int,
)
    requires
        outcome matches FileOutcome::Parsed(configs) ==> sorted(configs@),
    ensures
        outcome matches FileOutcome::ReadFailed(reason) ==> add_file(all, file, outcome) == (
            all,
            Err::<(), ErrorView>(
                ErrorView::ConfigError("Failed to read file "@ + file + ": "@ + reason@),
            ),
        ),
        outcome matches FileOutcome::ParseFailed(reason) ==> add_file(all, file, outcome) == (
            all,
            Err::<(), ErrorView>(
                ErrorView::ConfigError("Failed to parse JSON in file "@ + file + ": "@ + reason@),
            ),
        ),
        outcome matches FileOutcome::Parsed(configs) ==> {
            0 <= k < configs@.len() && assoc(all, configs@[k].0) is Some && (forall|i: int|
                0 <= i < k ==> assoc(all, (#[trigger] configs@[i]).0) is None) ==> {
                &&& add_file(all, file, outcome).1 == Err::<(), ErrorView>(
                    ErrorView::ConfigError(
                        "Duplicate workflow name '"@ + configs@[k].0 + "' found in file "@ + file,
                    ),
                )
                &&& add_file(all, file, outcome).0 == add_configs(all, file, configs@.take(k)).0
                &&& add_configs(all, file, configs@.take(k)).1 is Ok
            }
        },
{
    if let FileOutcome::Parsed(configs) = outcome {
        let m = configs@;
        if 0 <= k < m.len() && assoc(all, m[k].0) is Some && (forall|i: int|
            0 <= i < k ==> assoc(all, (#[trigger] m[i]).0) is None) {
            first_taken_name(all, file, m, k);
        }
    }
}

proof fn first_taken_name(
    all: Seq<(Seq<char>, WorkflowConfigView)>,
    file: Seq<char>,
    configs: Seq<(Seq<char>, WorkflowConfigView)>,
    k: int,
)
    requires
        sorted(configs),
        0 <= k < configs.len(),
        assoc(all, configs[k].0) is Some,
        forall|i: int| 0 <= i < k ==> assoc(all, (#[trigger] configs[i]).0) is None,
    ensures
        add_configs(all, file, configs).1 == Err::<(), ErrorView>(
            ErrorView::ConfigError(
                "Duplicate workflow name '"@ + configs[k].0 + "' found in file "@ + file,
            ),
        ),
        add_configs(all, file, configs).0 == add_configs(all, file, configs.take(k)).0,
        add_configs(all, file, configs.take(k)).1 is Ok,
    decreases k,
{
    if k > 0 {
        let (first, config) = configs[0];
        let rest = configs.skip(1);
        let next = assoc_insert(all, first, config);
        assert forall|i: int, j: int| 0 <= i < j < rest.len() implies text_less(
            #[trigger] rest[i].0,
            #[trigger] rest[j].0,
        ) by {
            assert(text_less(configs[i + 1].0, configs[j + 1].0));
        }
        assert forall|i: int| 0 <= i < rest.len() implies assoc(next, (#[trigger] rest[i]).0)
            == assoc(all, rest[i].0) by {
            assert(text_less(configs[0].0, configs[i + 1].0));
            text_less_irreflexive(first);
            assoc_after_insert(all, first, config, rest[i].0);
        }
        assert(assoc(all, configs[0].0) is None);
        assert(rest[k - 1] == configs[k]);
        assert forall|i: int| 0 <= i < k - 1 implies assoc(next, (#[trigger] rest[i]).0) is None by {
            assert(rest[i] == configs[i + 1]);
        }
        first_taken_name(next, file, rest, k - 1);
        assert(configs.take(k).skip(1) =~= rest.take(k - 1));
        assert(configs.take(k)[0] == configs[0]);
    } else {
        assert(configs.take(0) =~= Seq::empty());
    }
}

} // verus!
