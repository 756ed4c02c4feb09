//! Extensions: their metadata, its validation, and the registry of loaded
//! extensions.
use vstd::prelude::*;
use vstd::string::StringExecFns;
use crate::text::{chars_of, has_prefix, same_text, starts_with};
use crate::paths::{join_path, joined_path};

verus! {

/// The parameters of an extension tool.
pub struct ExtensionParameters {
    pub required: Vec<String>,
    pub optional: Vec<String>,
    /// The type of each parameter, as `(name, type)` pairs.
    pub types: Vec<(String, String)>,
}

/// What an extension may do.
#[derive(Clone, Copy, Debug, PartialEq, Eq, Structural)]
pub struct ExtensionCapabilities {
    pub model_control: bool,
    pub tool_integration: bool,
    pub file_operations: bool,
    pub system_access: bool,
}

/// Whether the capabilities include the one called `capability`; an
/// unknown name is never supported.
pub open spec fn supports_named(c: ExtensionCapabilities, capability: Seq<char>) -> bool {
    if capability == "model_control"@ {
        c.model_control
    } else if capability == "tool_integration"@ {
        c.tool_integration
    } else if capability == "file_operations"@ {
        c.file_operations
    } else if capability == "system_access"@ {
        c.system_access
    } else {
        false
    }
}

impl ExtensionCapabilities {
    /// Whether the capability called `capability` is granted.
    pub fn supports(&self, capability: &str) -> (r: bool)
        ensures
            r == supports_named(*self, capability@),
    {
        if same_text(capability, "model_control") {
            self.model_control
        } else if same_text(capability, "tool_integration") {
            self.tool_integration
        } else if same_text(capability, "file_operations") {
            self.file_operations
        } else if same_text(capability, "system_access") {
            self.system_access
        } else {
            false
        }
    }
}

/// What validation reads of a tool's input schema: the names of its
/// members when it is a JSON object.
pub enum SchemaShape {
    Object(Vec<String>),
    Other,
}

/// A tool that an extension provides.
pub struct ExtensionTool {
    pub name: String,
    pub description: String,
    pub parameters: ExtensionParameters,
    pub input_schema: SchemaShape,
}

/// An extension, as its `nmmcp.json` describes it.
pub struct NMMCPExtension {
    pub name: String,
    pub version: String,
    pub description: String,
    pub author: String,
    /// The script that runs the extension, relative to its directory.
    pub entry_point: String,
    pub dependencies: Vec<String>,
    pub tools: Vec<ExtensionTool>,
    pub capabilities: ExtensionCapabilities,
}

/// The texts of a list of strings.
pub open spec fn texts(v: Seq<String>) -> Seq<Seq<char>> {
    v.map_values(|s: String| s@)
}

/// The mathematical content of an [`ExtensionTool`].
pub struct ToolView {
    pub name: Seq<char>,
    pub description: Seq<char>,
    pub required: Seq<Seq<char>>,
    pub optional: Seq<Seq<char>>,
    /// The type of each parameter, as `(name, type)` pairs.
    pub types: Seq<(Seq<char>, Seq<char>)>,
    /// The member names of the input schema, when it is an object.
    pub schema_keys: Option<Seq<Seq<char>>>,
}

impl View for ExtensionTool {
    type V = ToolView;

    open spec fn view(&self) -> ToolView {
        ToolView {
            name: self.name@,
            description: self.description@,
            required: texts(self.parameters.required@),
            optional: texts(self.parameters.optional@),
            types: self.parameters.types@.map_values(|p: (String, String)| (p.0@, p.1@)),
            schema_keys: match self.input_schema {
                SchemaShape::Object(keys) => Some(texts(keys@)),
                SchemaShape::Other => None,
            },
        }
    }
}

/// The mathematical content of an [`NMMCPExtension`].
pub struct ExtensionView {
    pub name: Seq<char>,
    pub version: Seq<char>,
    pub description: Seq<char>,
    pub author: Seq<char>,
    pub entry_point: Seq<char>,
    pub dependencies: Seq<Seq<char>>,
    pub tools: Seq<ToolView>,
    pub capabilities: ExtensionCapabilities,
}

impl View for NMMCPExtension {
    type V = ExtensionView;

    open spec fn view(&self) -> ExtensionView {
        ExtensionView {
            name: self.name@,
            version: self.version@,
            description: self.description@,
            author: self.author@,
            entry_point: self.entry_point@,
            dependencies: texts(self.dependencies@),
            tools: self.tools@.map_values(|t: ExtensionTool| t@),
            capabilities: self.capabilities,
        }
    }
}

/// Why an extension was refused.
pub enum ExtensionError {
    EmptyName,
    EmptyVersion,
    EmptyEntryPoint,
    NoTools,
    EmptyToolName,
    EmptyToolDescription,
    /// A required parameter that the tool's input schema lacks.
    MissingParameter(String),
    /// No loaded extension has the name.
    NotFound(String),
}

/// The mathematical content of an [`ExtensionError`].
pub enum ProblemView {
    EmptyName,
    EmptyVersion,
    EmptyEntryPoint,
    NoTools,
    EmptyToolName,
    EmptyToolDescription,
    MissingParameter(Seq<char>),
    NotFound(Seq<char>),
}

impl View for ExtensionError {
    type V = ProblemView;

    open spec fn view(&self) -> ProblemView {
        match self {
            ExtensionError::EmptyName => ProblemView::EmptyName,
            ExtensionError::EmptyVersion => ProblemView::EmptyVersion,
            ExtensionError::EmptyEntryPoint => ProblemView::EmptyEntryPoint,
            ExtensionError::NoTools => ProblemView::NoTools,
            ExtensionError::EmptyToolName => ProblemView::EmptyToolName,
            ExtensionError::EmptyToolDescription => ProblemView::EmptyToolDescription,
            ExtensionError::MissingParameter(p) => ProblemView::MissingParameter(p@),
            ExtensionError::NotFound(n) => ProblemView::NotFound(n@),
        }
    }
}

/// The report of a problem.
pub open spec fn problem_text(p: ProblemView) -> Seq<char> {
    match p {
        ProblemView::EmptyName => "Extension name cannot be empty"@,
        ProblemView::EmptyVersion => "Extension version cannot be empty"@,
        ProblemView::EmptyEntryPoint => "Entry point cannot be empty"@,
        ProblemView::NoTools => "Extension must have at least one tool"@,
        ProblemView::EmptyToolName => "Tool name cannot be empty"@,
        ProblemView::EmptyToolDescription => "Tool description cannot be empty"@,
        ProblemView::MissingParameter(name) => "Required parameter '"@ + name
            + "' not found in input schema"@,
        ProblemView::NotFound(name) => "Extension not found: "@ + name,
    }
}

impl ExtensionError {
    /// The report of the problem.
    pub fn message(&self) -> (r: String)
        ensures
            r@ == problem_text(self@),
    {
        match self {
            ExtensionError::EmptyName => String::from_str("Extension name cannot be empty"),
            ExtensionError::EmptyVersion => String::from_str("Extension version cannot be empty"),
            ExtensionError::EmptyEntryPoint => String::from_str("Entry point cannot be empty"),
            ExtensionError::NoTools => String::from_str("Extension must have at least one tool"),
            ExtensionError::EmptyToolName => String::from_str("Tool name cannot be empty"),
            ExtensionError::EmptyToolDescription => String::from_str(
                "Tool description cannot be empty",
            ),
            ExtensionError::MissingParameter(p) => String::from_str("Required parameter '").concat(
                p.as_str(),
            ).concat("' not found in input schema"),
            ExtensionError::NotFound(n) => String::from_str("Extension not found: ").concat(
                n.as_str(),
            ),
        }
    }
}

/// The first required parameter that `keys` lacks.
pub open spec fn first_missing(required: Seq<Seq<char>>, keys: Seq<Seq<char>>) -> Option<Seq<char>>
    decreases required.len(),
{
    if required.len() == 0 {
        None
    } else if !keys.contains(required[0]) {
        Some(required[0])
    } else {
        first_missing(required.drop_first(), keys)
    }
}

/// What is wrong with a tool, checked in order: its name, its
/// description, and, when its input schema is an object, that the schema
/// has each required parameter.
pub open spec fn tool_problem(t: ToolView) -> Option<ProblemView> {
    if t.name.len() == 0 {
        Some(ProblemView::EmptyToolName)
    } else if t.description.len() == 0 {
        Some(ProblemView::EmptyToolDescription)
    } else {
        match t.schema_keys {
            Some(keys) => match first_missing(t.required, keys) {
                Some(p) => Some(ProblemView::MissingParameter(p)),
                None => None,
            },
            None => None,
        }
    }
}

/// The problem of the first tool that has one.
pub open spec fn tools_problem(ts: Seq<ToolView>) -> Option<ProblemView>
    decreases ts.len(),
{
    if ts.len() == 0 {
        None
    } else {
        match tool_problem(ts[0]) {
            Some(p) => Some(p),
            None => tools_problem(ts.drop_first()),
        }
    }
}

/// What is wrong with an extension, checked in order: its name, its
/// version, its entry point, that it has a tool, and each tool.
pub open spec fn extension_problem(e: ExtensionView) -> Option<ProblemView> {
    if e.name.len() == 0 {
        Some(ProblemView::EmptyName)
    } else if e.version.len() == 0 {
        Some(ProblemView::EmptyVersion)
    } else if e.entry_point.len() == 0 {
        Some(ProblemView::EmptyEntryPoint)
    } else if e.tools.len() == 0 {
        Some(ProblemView::NoTools)
    } else {
        tools_problem(e.tools)
    }
}

/// Whether the names `keys` include `name`.
fn has_key(keys: &Vec<String>, name: &str) -> (r: bool)
    ensures
        r == texts(keys@).contains(name@),
{
    let mut i: usize = 0;
    while i < keys.len()
        invariant
            i <= keys@.len(),
            forall|j: int| 0 <= j < i ==> texts(keys@)[j] != name@,
        decreases keys@.len() - i,
    {
        if same_text(keys[i].as_str(), name) {
            assert(texts(keys@)[i as int] == name@);
            return true;
        }
        i = i + 1;
    }
    false
}

/// What is wrong with a tool.
fn check_tool(t: &ExtensionTool) -> (r: Result<(), ExtensionError>)
    ensures
        match r {
            Ok(()) => tool_problem(t@) is None,
            Err(e) => tool_problem(t@) == Some(e@),
        },
{
    if t.name.as_str().is_empty() {
        return Err(ExtensionError::EmptyToolName);
    }
    if t.description.as_str().is_empty() {
        return Err(ExtensionError::EmptyToolDescription);
    }
    match &t.input_schema {
        SchemaShape::Object(keys) => {
            let required = &t.parameters.required;
            let ghost req = texts(required@);
            let ghost ks = texts(keys@);
            let mut i: usize = 0;
            assert(req.skip(0) =~= req);
            assert(tool_problem(t@) == match first_missing(req, ks) {
                Some(p) => Some(ProblemView::MissingParameter(p)),
                None => None,
            });
            while i < required.len()
                invariant
                    i <= required@.len(),
                    req == texts(required@),
                    ks == texts(keys@),
                    first_missing(req, ks) == first_missing(req.skip(i as int), ks),
                    tool_problem(t@) == match first_missing(req, ks) {
                        Some(p) => Some(ProblemView::MissingParameter(p)),
                        None => None,
                    },
                decreases required@.len() - i,
            {
                assert(req.skip(i as int).drop_first() =~= req.skip(i + 1));
                assert(req.skip(i as int)[0] == req[i as int]);
                assert(req[i as int] == required@[i as int]@);
                if !has_key(keys, required[i].as_str()) {
                    return Err(ExtensionError::MissingParameter(required[i].clone()));
                }
                i = i + 1;
            }
            assert(req.skip(i as int).len() == 0);
            Ok(())
        },
        SchemaShape::Other => Ok(()),
    }
}

/// Checks an extension's metadata: the first problem found, in the order
/// that [`extension_problem`] gives.
pub fn validate_extension_metadata(metadata: &NMMCPExtension) -> (r: Result<(), ExtensionError>)
    ensures
        match r {
            Ok(()) => extension_problem(metadata@) is None,
            Err(e) => extension_problem(metadata@) == Some(e@),
        },
{
    if metadata.name.as_str().is_empty() {
        return Err(ExtensionError::EmptyName);
    }
    if metadata.version.as_str().is_empty() {
        return Err(ExtensionError::EmptyVersion);
    }
    if metadata.entry_point.as_str().is_empty() {
        return Err(ExtensionError::EmptyEntryPoint);
    }
    if metadata.tools.len() == 0 {
        return Err(ExtensionError::NoTools);
    }
    let ghost ts = metadata@.tools;
    let mut i: usize = 0;
    assert(ts.skip(0) =~= ts);
    while i < metadata.tools.len()
        invariant
            i <= metadata.tools@.len(),
            ts == metadata@.tools,
            ts.len() == metadata.tools@.len(),
            tools_problem(ts) == tools_problem(ts.skip(i as int)),
            extension_problem(metadata@) == tools_problem(ts),
        decreases metadata.tools@.len() - i,
    {
        assert(ts.skip(i as int).drop_first() =~= ts.skip(i + 1));
        assert(ts.skip(i as int)[0] == metadata.tools@[i as int]@);
        match check_tool(&metadata.tools[i]) {
            Ok(()) => {},
            Err(e) => {
                return Err(e);
            },
        }
        i = i + 1;
    }
    assert(ts.skip(i as int).len() == 0);
    Ok(())
}

/// The position of the extension named `name`, if there is one.
pub open spec fn extension_index(es: Seq<ExtensionView>, name: Seq<char>) -> Option<int> {
    if exists|i: int| 0 <= i < es.len() && (#[trigger] es[i]).name == name {
        Some(choose|i: int| 0 <= i < es.len() && (#[trigger] es[i]).name == name)
    } else {
        None
    }
}

/// No two extensions share a name.
pub open spec fn extension_names_distinct(es: Seq<ExtensionView>) -> bool {
    forall|i: int, j: int|
        0 <= i < es.len() && 0 <= j < es.len() && i != j ==> (#[trigger] es[i]).name != (
        #[trigger] es[j]).name
}

/// The views of a list of extensions.
pub open spec fn extension_views(v: Seq<NMMCPExtension>) -> Seq<ExtensionView> {
    v.map_values(|e: NMMCPExtension| e@)
}

/// The tools of the extensions, each as its qualified name
/// `<extension>:<tool>` and its description, extension by extension.
pub open spec fn tool_listing(es: Seq<ExtensionView>) -> Seq<(Seq<char>, Seq<char>)>
    decreases es.len(),
{
    if es.len() == 0 {
        Seq::empty()
    } else {
        tool_listing(es.drop_last()) + es.last().tools.map_values(
            |t: ToolView| (es.last().name + ":"@ + t.name, t.description),
        )
    }
}

/// The loaded extensions, keyed by name.
pub struct NMMCPExtensionRegistry {
    extensions: Vec<NMMCPExtension>,
}

impl View for NMMCPExtensionRegistry {
    type V = Seq<ExtensionView>;

    closed spec fn view(&self) -> Seq<ExtensionView> {
        extension_views(self.extensions@)
    }
}

impl NMMCPExtensionRegistry {
    #[verifier::type_invariant]
    spec fn inv(self) -> bool {
        extension_names_distinct(extension_views(self.extensions@))
    }

    /// A registry with no extension.
    pub fn new() -> (r: NMMCPExtensionRegistry)
        ensures
            r@ == Seq::<ExtensionView>::empty(),
    {
        let r = NMMCPExtensionRegistry { extensions: Vec::new() };
        assert(r@ =~= Seq::<ExtensionView>::empty());
        r
    }

    /// The loaded extensions, in the order they were first added.
    pub fn get_extensions(&self) -> (r: &Vec<NMMCPExtension>)
        ensures
            extension_views(r@) == self@,
    {
        &self.extensions
    }

    /// The position of the extension named `name`.
    fn find(&self, name: &str) -> (r: Option<usize>)
        ensures
            match r {
                Some(i) => extension_index(self@, name@) == Some(i as int) && i < self@.len(),
                None => extension_index(self@, name@) is None,
            },
    {
        proof {
            use_type_invariant(self);
        }
        let mut i: usize = 0;
        while i < self.extensions.len()
            invariant
                i <= self.extensions@.len(),
                self@ == extension_views(self.extensions@),
                extension_names_distinct(self@),
                forall|j: int| 0 <= j < i ==> self@[j].name != name@,
            decreases self.extensions@.len() - i,
        {
            if same_text(self.extensions[i].name.as_str(), name) {
                proof {
                    assert(self@[i as int].name == name@);
                    let k = choose|k: int| 0 <= k < self@.len() && (#[trigger] self@[k]).name == name@;
                    assert(k == i);
                }
                return Some(i);
            }
            i = i + 1;
        }
        None
    }

    /// The extension named `name`.
    pub fn get_extension(&self, name: &str) -> (r: Option<&NMMCPExtension>)
        ensures
            match extension_index(self@, name@) {
                Some(i) => r matches Some(e) && e@ == self@[i],
                None => r is None,
            },
    {
        match self.find(name) {
            Some(i) => Some(&self.extensions[i]),
            None => None,
        }
    }

    /// Adds `extension`, replacing the one of the same name if there is
    /// one (`HashMap::insert`).
    pub fn register(&mut self, extension: NMMCPExtension)
        ensures
            final(self)@ == registered(old(self)@, extension@),
    {
        proof {
            use_type_invariant(&*self);
        }
        let ghost before = self@;
        let ghost v = extension@;
        let found = self.find(extension.name.as_str());
        let mut list: Vec<NMMCPExtension> = Vec::new();
        std::mem::swap(&mut list, &mut self.extensions);
        match found {
            Some(i) => {
                list.remove(i);
                list.insert(i, extension);
                proof {
                    assert(extension_views(list@) =~= before.update(i as int, v));
                    assert forall|a: int, b: int|
                        0 <= a < extension_views(list@).len() && 0 <= b < extension_views(
                            list@,
                        ).len() && a != b implies (#[trigger] extension_views(list@)[a]).name != (
                    #[trigger] extension_views(list@)[b]).name by {
                        if a != i && b != i {
                            assert(before[a] == extension_views(list@)[a]);
                            assert(before[b] == extension_views(list@)[b]);
                        } else if a == i {
                            assert(before[a].name == v.name);
                        } else {
                            assert(before[b].name == v.name);
                        }
                    }
                }
            },
            None => {
                list.push(extension);
                proof {
                    assert(extension_views(list@) =~= before.push(v));
                    assert forall|a: int, b: int|
                        0 <= a < extension_views(list@).len() && 0 <= b < extension_views(
                            list@,
                        ).len() && a != b implies (#[trigger] extension_views(list@)[a]).name != (
                    #[trigger] extension_views(list@)[b]).name by {
                        if a < before.len() && b < before.len() {
                            assert(before[a] == extension_views(list@)[a]);
                            assert(before[b] == extension_views(list@)[b]);
                        } else if a == before.len() {
                            assert(extension_views(list@)[b] == before[b]);
                        } else {
                            assert(extension_views(list@)[a] == before[a]);
                        }
                    }
                }
            },
        }
        self.extensions = list;
    }

    /// Every tool of every extension, as `<extension>:<tool>` and its
    /// description.
    pub fn list_all_tools(&self) -> (r: Vec<(String, String)>)
        ensures
            r@.map_values(|p: (String, String)| (p.0@, p.1@)) == tool_listing(self@),
    {
        let ghost es = self@;
        let mut r: Vec<(String, String)> = Vec::new();
        let mut i: usize = 0;
        while i < self.extensions.len()
            invariant
                i <= self.extensions@.len(),
                es == self@,
                es == extension_views(self.extensions@),
                r@.map_values(|p: (String, String)| (p.0@, p.1@)) == tool_listing(es.take(i as int)),
            decreases self.extensions@.len() - i,
        {
            let ext = &self.extensions[i];
            let ghost done = r@.map_values(|p: (String, String)| (p.0@, p.1@));
            let ghost add = ext@.tools.map_values(
                |t: ToolView| (ext@.name + ":"@ + t.name, t.description),
            );
            let mut k: usize = 0;
            while k < ext.tools.len()
                invariant
                    k <= ext.tools@.len(),
                    add.len() == ext.tools@.len(),
                    add == ext@.tools.map_values(
                        |t: ToolView| (ext@.name + ":"@ + t.name, t.description),
                    ),
                    r@.map_values(|p: (String, String)| (p.0@, p.1@)) == done + add.take(k as int),
                decreases ext.tools@.len() - k,
            {
                let tool = &ext.tools[k];
                let qualified = ext.name.clone().concat(":").concat(tool.name.as_str());
                let ghost before = r@;
                let pair = (qualified, tool.description.clone());
                let ghost pv = (pair.0@, pair.1@);
                assert(ext@.tools[k as int] == tool@);
                assert(pv == add[k as int]);
                r.push(pair);
                proof {
                    assert(r@ == before.push(pair));
                    assert(r@.map_values(|p: (String, String)| (p.0@, p.1@)) =~= before.map_values(
                        |p: (String, String)| (p.0@, p.1@),
                    ).push(pv));
                    assert(add.take(k + 1) =~= add.take(k as int).push(add[k as int]));
                    assert(r@.map_values(|p: (String, String)| (p.0@, p.1@)) =~= done + add.take(
                        k + 1,
                    ));
                }
                k = k + 1;
            }
            proof {
                assert(add.take(add.len() as int) =~= add);
                let t = es.take(i + 1);
                assert(t.drop_last() =~= es.take(i as int));
                assert(t.last() == ext@);
            }
            i = i + 1;
        }
        assert(es.take(es.len() as int) =~= es);
        r
    }

    /// Whether the extension named `extension_name` is loaded and has the
    /// capability called `capability`.
    pub fn supports_capability(&self, extension_name: &str, capability: &str) -> (r: bool)
        ensures
            r == match extension_index(self@, extension_name@) {
                Some(i) => supports_named(self@[i].capabilities, capability@),
                None => false,
            },
    {
        match self.find(extension_name) {
            Some(i) => self.extensions[i].capabilities.supports(capability),
            None => false,
        }
    }

    /// Removes the extension named `name`; an error when none is loaded.
    pub fn uninstall_extension(&mut self, name: &str) -> (r: Result<(), ExtensionError>)
        ensures
            match extension_index(old(self)@, name@) {
                Some(i) => r is Ok && final(self)@ == old(self)@.remove(i),
                None => r matches Err(e) && e@ == ProblemView::NotFound(name@) && final(self)@
                    == old(self)@,
            },
    {
        proof {
            use_type_invariant(&*self);
        }
        let ghost before = self@;
        match self.find(name) {
            Some(i) => {
                let mut list: Vec<NMMCPExtension> = Vec::new();
                std::mem::swap(&mut list, &mut self.extensions);
                list.remove(i);
                proof {
                    assert(extension_views(list@) =~= before.remove(i as int));
                    assert forall|a: int, b: int|
                        0 <= a < extension_views(list@).len() && 0 <= b < extension_views(
                            list@,
                        ).len() && a != b implies (#[trigger] extension_views(list@)[a]).name != (
                    #[trigger] extension_views(list@)[b]).name by {
                        let a0 = if a < i { a } else { a + 1 };
                        let b0 = if b < i { b } else { b + 1 };
                        assert(extension_views(list@)[a] == before[a0]);
                        assert(extension_views(list@)[b] == before[b0]);
                    }
                }
                self.extensions = list;
                Ok(())
            },
            None => Err(ExtensionError::NotFound(String::from_str(name))),
        }
    }
}

/// The extensions after adding `e` (replacing the one of the same name).
pub open spec fn registered(es: Seq<ExtensionView>, e: ExtensionView) -> Seq<ExtensionView> {
    match extension_index(es, e.name) {
        Some(i) => es.update(i, e),
        None => es.push(e),
    }
}

/// What was added is what is found under its name: after adding `e`,
/// looking its name up finds `e`.
pub proof fn law_registered_is_found(es: Seq<ExtensionView>, e: ExtensionView)
    requires
        extension_names_distinct(es),
    ensures
        extension_index(registered(es, e), e.name) matches Some(k) && registered(es, e)[k] == e,
{
    let after = registered(es, e);
    let at: int = match extension_index(es, e.name) {
        Some(i) => i,
        None => es.len() as int,
    };
    assert(0 <= at < after.len() && after[at] == e);
    let w = choose|j: int| 0 <= j < after.len() && (#[trigger] after[j]).name == e.name;
    if w != at {
        assert(after[w] == es[w]);
        match extension_index(es, e.name) {
            Some(i) => {
                assert(es[i].name == e.name);
            },
            None => {
                assert(es[w].name == e.name);
            },
        }
    }
}

/// After removing the extension named `name`, none is found under it.
pub proof fn law_uninstalled_is_gone(es: Seq<ExtensionView>, name: Seq<char>)
    requires
        extension_names_distinct(es),
        extension_index(es, name) is Some,
    ensures
        extension_index(es.remove(extension_index(es, name).unwrap()), name) is None,
{
    let i = extension_index(es, name).unwrap();
    let after = es.remove(i);
    if exists|j: int| 0 <= j < after.len() && (#[trigger] after[j]).name == name {
        let j = choose|j: int| 0 <= j < after.len() && (#[trigger] after[j]).name == name;
        let j0 = if j < i { j } else { j + 1 };
        assert(after[j] == es[j0]);
        assert(es[i].name == name);
    }
}

/// Whether a directory name marks an extension: it begins with `ext_` or
/// `nmmcp_`.
pub open spec fn is_extension_dir(name: Seq<char>) -> bool {
    has_prefix(name, "ext_"@) || has_prefix(name, "nmmcp_"@)
}

/// Whether a directory called `name` holds an extension.
pub fn is_extension_dir_name(name: &str) -> (r: bool)
    ensures
        r == is_extension_dir(name@),
{
    let n = chars_of(name);
    let a = chars_of("ext_");
    let b = chars_of("nmmcp_");
    starts_with(n.as_slice(), a.as_slice()) || starts_with(n.as_slice(), b.as_slice())
}

/// The extensions directory under the home directory `home`, or under
/// the current directory when there is no home: `.neonmachines/extensions`.
pub open spec fn extensions_dir_in(home: Option<Seq<char>>) -> Seq<char> {
    let base = match home {
        Some(h) => h,
        None => "."@,
    };
    joined_path(joined_path(base, ".neonmachines"@), "extensions"@)
}

/// The user's home directory (`dirs::home_dir`), as text. It comes from
/// the environment, so nothing is promised of it.
#[verifier::external_body]
fn home_dir_text() -> Option<String> {
    match dirs::home_dir() {
        Some(p) => Some(p.to_string_lossy().into_owned()),
        None => None,
    }
}

/// The extensions directory under the home directory `home`.
pub fn extensions_directory_under(home: Option<&str>) -> (r: String)
    ensures
        r@ == extensions_dir_in(
            match home {
                Some(h) => Some(h@),
                None => None,
            },
        ),
{
    let base = match home {
        Some(h) => String::from_str(h),
        None => String::from_str("."),
    };
    let d = join_path(base.as_str(), ".neonmachines");
    join_path(d.as_str(), "extensions")
}

/// The user's extensions directory: `.neonmachines/extensions` under the
/// home directory, or under the current directory without one.
pub fn get_extensions_directory() -> (r: String)
    ensures
        exists|home: Option<Seq<char>>| r@ == extensions_dir_in(home),
{
    let home = home_dir_text();
    let r = match &home {
        Some(h) => extensions_directory_under(Some(h.as_str())),
        None => extensions_directory_under(None),
    };
    proof {
        let hv: Option<Seq<char>> = match home {
            Some(h) => Some(h@),
            None => None,
        };
        assert(r@ == extensions_dir_in(hv));
    }
    r
}

/// The directories searched for extensions, in order: the user's, the
/// system's, and the one under the current directory.
pub fn get_default_extension_directories() -> (r: Vec<String>)
    ensures
        r@.len() == 3,
        exists|home: Option<Seq<char>>| r@[0]@ == extensions_dir_in(home),
        r@[1]@ == "/usr/local/lib/neonmachines/extensions"@,
        r@[2]@ == "./extensions"@,
{
    let mut dirs: Vec<String> = Vec::new();
    dirs.push(get_extensions_directory());
    dirs.push(String::from_str("/usr/local/lib/neonmachines/extensions"));
    dirs.push(String::from_str("./extensions"));
    dirs
}

} // verus!
