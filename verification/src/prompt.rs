//! Prompts made of templates, which `tera` renders.
use vstd::prelude::*;

use crate::error::{result_view, unit_view, ErrorView, WorkflowError};
use crate::json::{normal, outside_json};
use crate::text::{cat2, cat4, contains, contains_text, occurs_at, text_eq, texts};
use crate::value::{Json, JsonView};
use vstd::string::StringExecFns;

verus! {

/// What a prompt is for.
#[derive(Clone, Copy, Debug, PartialEq, Eq, Structural)]
pub enum PromptKind {
    /// An answer as a whole.
    Chat,
    /// An answer in pieces.
    ChatStream,
    /// Finding out what a user wants.
    IntentAnalysis,
}

/// A prompt.
#[derive(Debug)]
pub struct PromptBase {
    pub kind: PromptKind,
    pub content: String,
}

/// What a prompt holds.
#[verifier::ext_equal]
pub struct PromptView {
    pub kind: PromptKind,
    pub content: Seq<char>,
}

impl View for PromptBase {
    type V = PromptView;

    open spec fn view(&self) -> PromptView {
        PromptView { kind: self.kind, content: self.content@ }
    }
}

impl PromptBase {
    /// A prompt with the given text.
    pub fn new(kind: PromptKind, content: String) -> (r: PromptBase)
        ensures
            r@ == (PromptView { kind, content: content@ }),
    {
        PromptBase { kind, content }
    }

    /// The text of the prompt.
    pub fn as_str(&self) -> (r: &str)
        ensures
            r@ == self@.content,
    {
        self.content.as_str()
    }
}

#[verifier::external_type_specification]
#[verifier::external_body]
pub struct ExTera(tera::Tera);

/// The names of the templates that a `tera::Tera` holds.
pub uninterp spec fn template_set(t: tera::Tera) -> Set<Seq<char>>;

/// Whether rendering a template of a `tera::Tera`, with a value under a key in its
/// context, can come to this text or, where it fails, to an error of this wording.
pub uninterp spec fn can_render(
    t: tera::Tera,
    template: Seq<char>,
    key: Seq<char>,
    value: JsonView,
    rendered: Result<Seq<char>, Seq<char>>,
) -> bool;

/// Whether rendering a template of a `tera::Tera`, with a value under a key in its
/// context, can panic or go on without end. It does where a template adds doubles whose
/// sum is infinite, asks for a random number of an empty range, or calls a macro that
/// calls itself.
pub uninterp spec fn can_panic(
    t: tera::Tera,
    template: Seq<char>,
    key: Seq<char>,
    value: JsonView,
) -> bool;

/// What came of a rendering.
pub open spec fn rendered_view(r: Result<String, String>) -> Result<Seq<char>, Seq<char>> {
    match r {
        Ok(text) => Ok(text@),
        Err(e) => Err(e@),
    }
}

/// What `tera` says of a template that it does not hold.
pub open spec fn missing_template(name: Seq<char>) -> Seq<char> {
    "Template '"@ + name + "' not found"@
}

/// Renders a template by `tera::Tera::render`, with a value under a key in the
/// template's context; an error is given by its wording. What comes out is one of
/// the things that can come of these templates, this name, this key and this value; it
/// need not be the same each time, as a template can call functions of `tera` that
/// depend on the time, on chance or on the environment. A template that is not held is
/// an error that names it. Where the rendering can panic it is not to be called.
#[verifier::external_body]
fn render(tera: &tera::Tera, template_name: &str, key: &str, value: &serde_json::Value) -> (r:
    Result<String, String>)
    requires
        !can_panic(*tera, template_name@, key@, outside_json(*value)),
    ensures
        can_render(*tera, template_name@, key@, outside_json(*value), rendered_view(r)),
        match r {
            Ok(_) => template_set(*tera).contains(template_name@),
            Err(e) => template_set(*tera).contains(template_name@) || e@ == missing_template(
                template_name@,
            ),
        },
{
    let mut context = tera::Context::new();
    context.insert(key, value);
    tera.render(template_name, &context).map_err(|e| e.to_string())
}

/// The names of the templates, by `tera::Tera::get_template_names`: each name once,
/// in an order that is not fixed. Rendering under any other name only gives an error.
#[verifier::external_body]
fn loaded_names(tera: &tera::Tera) -> (r: Vec<String>)
    ensures
        texts(r@).to_set() == template_set(*tera),
        texts(r@).no_duplicates(),
        forall|name: Seq<char>, key: Seq<char>, value: JsonView| #[trigger]
            can_panic(*tera, name, key, value) ==> texts(r@).contains(name),
{
    tera.get_template_names().map(|name| name.to_string()).collect()
}

/// What came of loading the templates of a directory.
pub enum TemplateLoad {
    /// The directory is not there.
    Missing,
    /// The templates could not be loaded; the wording of the error.
    Failed(String),
    /// The templates.
    Loaded(tera::Tera),
}

/// The prompt that a rendering gives, or its error. An error that speaks of
/// templates, or of something that was not found, is reported as a template that is
/// not there.
pub open spec fn prompt_of(
    kind: PromptKind,
    template: Seq<char>,
    dir: Seq<char>,
    rendered: Result<Seq<char>, Seq<char>>,
) -> Result<PromptView, ErrorView> {
    match rendered {
        Ok(text) => Ok(PromptView { kind, content: text }),
        Err(e) => if contains_text(e, "not found"@) || contains_text(e, "Template"@) {
            Err(
                ErrorView::Other(
                    "Template '"@ + template + "' not found in '"@ + dir + ("': "@ + e),
                ),
            )
        } else {
            Err(ErrorView::Other("Failed to render template '"@ + template + "': "@ + e))
        },
    }
}

/// The error of a template that is not there.
pub open spec fn not_there(template: Seq<char>, dir: Seq<char>) -> ErrorView {
    ErrorView::Other(
        "Template '"@ + template + "' not found in '"@ + dir + ("': "@ + missing_template(
            template,
        )),
    )
}

/// Makes prompts of the templates of a directory.
pub struct PromptFactory {
    pub template_dir: String,
    pub tera: tera::Tera,
}

impl PromptFactory {
    /// A factory with the templates that were loaded from a directory.
    pub fn new(template_dir: &str, load: TemplateLoad) -> (r: Result<PromptFactory, WorkflowError>)
        ensures
            match load {
                TemplateLoad::Missing => r is Err && r->Err_0@ == ErrorView::IoError(
                    "Template directory not found: "@ + template_dir@,
                ),
                TemplateLoad::Failed(e) => r is Err && r->Err_0@ == ErrorView::Other(
                    "Failed to load templates from '"@ + template_dir@ + "': "@ + e@,
                ),
                TemplateLoad::Loaded(t) => r is Ok && r->Ok_0.template_dir@ == template_dir@
                    && r->Ok_0.tera == t,
            },
    {
        match load {
            TemplateLoad::Missing => Err(
                WorkflowError::IoError(cat2("Template directory not found: ", template_dir)),
            ),
            TemplateLoad::Failed(e) => Err(
                WorkflowError::Other(
                    cat4("Failed to load templates from '", template_dir, "': ", e.as_str()),
                ),
            ),
            TemplateLoad::Loaded(tera) => Ok(
                PromptFactory { template_dir: template_dir.to_owned(), tera },
            ),
        }
    }

    /// Takes the templates that were loaded anew; where that failed, the old ones stay.
    pub fn reload(&mut self, loaded: Result<tera::Tera, String>) -> (r: Result<(), WorkflowError>)
        ensures
            match loaded {
                Ok(t) => r is Ok && *final(self) == (PromptFactory { tera: t, ..*old(self) }),
                Err(e) => unit_view(r) == Err::<(), ErrorView>(
                    ErrorView::Other("Template error: "@ + e@),
                ) && *final(self) == *old(self),
            },
    {
        match loaded {
            Ok(t) => {
                self.tera = t;
                Ok(())
            },
            Err(e) => Err(WorkflowError::Other(cat2("Template error: ", e.as_str()))),
        }
    }

    /// The prompt that a rendering gives, or its error.
    pub fn finish_prompt(
        kind: PromptKind,
        template_name: &str,
        template_dir: &str,
        rendered: Result<String, String>,
    ) -> (r: Result<PromptBase, WorkflowError>)
        ensures
            result_view(r) == prompt_of(
                kind,
                template_name@,
                template_dir@,
                rendered_view(rendered),
            ),
    {
        match rendered {
            Ok(text) => Ok(PromptBase::new(kind, text)),
            Err(e) => {
                if contains(e.as_str(), "not found") || contains(e.as_str(), "Template") {
                    let mut text = cat4(
                        "Template '",
                        template_name,
                        "' not found in '",
                        template_dir,
                    );
                    let tail = cat2("': ", e.as_str());
                    text.append(tail.as_str());
                    Err(WorkflowError::Other(text))
                } else {
                    Err(
                        WorkflowError::Other(
                            cat4(
                                "Failed to render template '",
                                template_name,
                                "': ",
                                e.as_str(),
                            ),
                        ),
                    )
                }
            },
        }
    }

    /// Whether a template can be rendered with these parameters without a panic.
    pub open spec fn renders(self, template: Seq<char>, params: JsonView) -> bool {
        !can_panic(self.tera, template, "params"@, normal(params))
    }

    /// The error of a template that is not there; of one that is, nothing, as its
    /// rendering can panic.
    pub fn missing_error(&self, kind: PromptKind, template_name: &str, params: &Json) -> (r: Option<
        WorkflowError,
    >)
        ensures
            match r {
                Some(e) => !template_set(self.tera).contains(template_name@) && e@ == not_there(
                    template_name@,
                    self.template_dir@,
                ),
                None => template_set(self.tera).contains(template_name@),
            },
    {
        let names = self.template_names();
        let mut i: usize = 0;
        while i < names.len()
            invariant
                i <= names@.len(),
                forall|j: int| 0 <= j < i ==> #[trigger] texts(names@)[j] != template_name@,
                texts(names@).to_set() == template_set(self.tera),
            decreases names@.len() - i,
        {
            if text_eq(names[i].as_str(), template_name) {
                proof {
                    assert(texts(names@)[i as int] == template_name@);
                    assert(texts(names@).to_set().contains(template_name@));
                }
                return None;
            }
            i = i + 1;
        }
        proof {
            assert(!texts(names@).contains(template_name@));
            assert(!texts(names@).to_set().contains(template_name@));
        }
        match self.build_prompt(kind, template_name, params) {
            Ok(_) => None,
            Err(e) => Some(e),
        }
    }

    /// Renders a template to a prompt. What the rendering gives is up to the
    /// template; whatever it is, the prompt or the error is the one of it.
    pub fn build_prompt(&self, kind: PromptKind, template_name: &str, params: &Json) -> (r: Result<
        PromptBase,
        WorkflowError,
    >)
        requires
            self.renders(template_name@, params@),
        ensures
            exists|rendered: Result<Seq<char>, Seq<char>>|
                #[trigger] can_render(
                    self.tera,
                    template_name@,
                    "params"@,
                    normal(params@),
                    rendered,
                ) && result_view(r) == prompt_of(
                    kind,
                    template_name@,
                    self.template_dir@,
                    rendered,
                ),
            !template_set(self.tera).contains(template_name@) ==> result_view(r) == Err::<
                PromptView,
                ErrorView,
            >(not_there(template_name@, self.template_dir@)),
    {
        let value = params.to_outside();
        let rendered = render(&self.tera, template_name, "params", &value);
        proof {
            assert(can_render(
                self.tera,
                template_name@,
                "params"@,
                normal(params@),
                rendered_view(rendered),
            ));
            if rendered is Err && rendered->Err_0@ == missing_template(template_name@) {
                reveal_strlit("Template '");
                reveal_strlit("Template");
                let e = rendered->Err_0@;
                assert(e.subrange(0, 8) =~= "Template"@);
                assert(occurs_at(e, "Template"@, 0));
            }
        }
        Self::finish_prompt(kind, template_name, self.template_dir.as_str(), rendered)
    }

    /// A prompt for an answer as a whole.
    pub fn chat(&self, template_name: &str, params: &Json) -> (r: Result<
        PromptBase,
        WorkflowError,
    >)
        requires
            self.renders(template_name@, params@),
        ensures
            exists|rendered: Result<Seq<char>, Seq<char>>|
                #[trigger] can_render(
                    self.tera,
                    template_name@,
                    "params"@,
                    normal(params@),
                    rendered,
                ) && result_view(r) == prompt_of(
                    PromptKind::Chat,
                    template_name@,
                    self.template_dir@,
                    rendered,
                ),
            !template_set(self.tera).contains(template_name@) ==> result_view(r) == Err::<
                PromptView,
                ErrorView,
            >(not_there(template_name@, self.template_dir@)),
    {
        self.build_prompt(PromptKind::Chat, template_name, params)
    }

    /// A prompt for an answer in pieces.
    pub fn chat_stream(&self, template_name: &str, params: &Json) -> (r: Result<
        PromptBase,
        WorkflowError,
    >)
        requires
            self.renders(template_name@, params@),
        ensures
            exists|rendered: Result<Seq<char>, Seq<char>>|
                #[trigger] can_render(
                    self.tera,
                    template_name@,
                    "params"@,
                    normal(params@),
                    rendered,
                ) && result_view(r) == prompt_of(
                    PromptKind::ChatStream,
                    template_name@,
                    self.template_dir@,
                    rendered,
                ),
            !template_set(self.tera).contains(template_name@) ==> result_view(r) == Err::<
                PromptView,
                ErrorView,
            >(not_there(template_name@, self.template_dir@)),
    {
        self.build_prompt(PromptKind::ChatStream, template_name, params)
    }

    /// A prompt for finding out what a user wants.
    pub fn intent_analysis(&self, template_name: &str, params: &Json) -> (r: Result<
        PromptBase,
        WorkflowError,
    >)
        requires
            self.renders(template_name@, params@),
        ensures
            exists|rendered: Result<Seq<char>, Seq<char>>|
                #[trigger] can_render(
                    self.tera,
                    template_name@,
                    "params"@,
                    normal(params@),
                    rendered,
                ) && result_view(r) == prompt_of(
                    PromptKind::IntentAnalysis,
                    template_name@,
                    self.template_dir@,
                    rendered,
                ),
            !template_set(self.tera).contains(template_name@) ==> result_view(r) == Err::<
                PromptView,
                ErrorView,
            >(not_there(template_name@, self.template_dir@)),
    {
        self.build_prompt(PromptKind::IntentAnalysis, template_name, params)
    }

    /// The directory of the templates.
    pub fn template_dir(&self) -> (r: &str)
        ensures
            r@ == self.template_dir@,
    {
        self.template_dir.as_str()
    }

    /// The names of the templates, each once, in no fixed order. No other name can make
    /// a rendering panic.
    pub fn template_names(&self) -> (r: Vec<String>)
        ensures
            texts(r@).to_set() == template_set(self.tera),
            texts(r@).no_duplicates(),
            forall|name: Seq<char>, key: Seq<char>, value: JsonView| #[trigger]
                can_panic(self.tera, name, key, value) ==> texts(r@).contains(name),
    {
        loaded_names(&self.tera)
    }
}

/// A rendering that gives a text gives the prompt with that text, of the kind that was
/// asked for, and no other rendering gives a prompt. Of an error the wording says whether
/// the template is reported as one that is not there, and it is repeated in any case.
pub proof fn prompt_is_what_was_rendered(
    kind: PromptKind,
    template: Seq<char>,
    dir: Seq<char>,
    rendered: Result<Seq<char>, Seq<char>>,
    prompt: PromptView,
)
    ensures
        prompt_of(kind, template, dir, rendered) == Ok::<PromptView, ErrorView>(prompt) <==> (
        rendered matches Ok(text) && prompt.kind == kind && prompt.content == text),
        rendered matches Err(e) ==> {
            let missing = contains_text(e, "not found"@) || contains_text(e, "Template"@);
            let outcome = prompt_of(kind, template, dir, rendered);
            &&& missing ==> outcome == Err::<PromptView, ErrorView>(
                ErrorView::Other(
                    "Template '"@ + template + "' not found in '"@ + dir + ("': "@ + e),
                ),
            )
            &&& !missing ==> outcome == Err::<PromptView, ErrorView>(
                ErrorView::Other("Failed to render template '"@ + template + "': "@ + e),
            )
        },
{
}

} // verus!
