//! Configuration: the resolved settings, how parsed files are merged into
//! them, and the commit-message formatting they drive.
use vstd::prelude::*;
use vstd::string::StringExecFns;

use crate::categories::{Category, CategoryModel, default_categories, default_category_specs};
use crate::text::{
    chars_of, concat_chars, ends_with_spec, eq_chars, replace_chars, replace_spec, split_chars,
    split_spec, starts_with, starts_with_spec, string_from, string_views, trim_chars, trim_spec,
    views,
};

verus! {

// ── Resolved config ──────────────────────────────────────

/// The settings that shape commits.
#[derive(Debug)]
pub struct CommitConfig {
    /// Template for the commit subject. Placeholders: `$type`, `$mod`, `$message`
    pub template: String,
    /// Prompt the user for a long description
    pub ask_description: bool,
    /// Attach emoji before semantic prefix in the commit subject
    pub attach_emoji: bool,
    /// Push automatically after every commit (skip the "Push now?" prompt)
    pub auto_push: bool,
}

/// A module that commits can be scoped to.
#[derive(Debug)]
pub struct Module {
    pub name: String,
    pub description: String,
    pub paths: Vec<String>,
}

/// The resolved configuration.
#[derive(Debug)]
pub struct Config {
    pub commit: CommitConfig,
    pub categories: Vec<Category>,
    pub modules: Vec<Module>,
}

/// The mathematical value of the commit settings.
pub struct CommitModel {
    pub template: Seq<char>,
    pub ask_description: bool,
    pub attach_emoji: bool,
    pub auto_push: bool,
}

/// The mathematical value of a module.
pub struct ModuleModel {
    pub name: Seq<char>,
    pub description: Seq<char>,
    pub paths: Seq<Seq<char>>,
}

/// The mathematical value of a configuration.
pub struct ConfigModel {
    pub commit: CommitModel,
    pub categories: Seq<CategoryModel>,
    pub modules: Seq<ModuleModel>,
}

impl View for CommitConfig {
    type V = CommitModel;

    open spec fn view(&self) -> CommitModel {
        CommitModel {
            template: self.template@,
            ask_description: self.ask_description,
            attach_emoji: self.attach_emoji,
            auto_push: self.auto_push,
        }
    }
}

impl View for Module {
    type V = ModuleModel;

    open spec fn view(&self) -> ModuleModel {
        ModuleModel {
            name: self.name@,
            description: self.description@,
            paths: self.paths@.map_values(|p: String| p@),
        }
    }
}

impl Module {
    /// A copy of this module.
    pub fn duplicate(&self) -> (r: Module)
        ensures
            r@ == self@,
    {
        let paths = crate::text::clone_strings(self.paths.as_slice());
        proof {
            assert(paths@.map_values(|p: String| p@) =~= crate::text::string_views(paths@));
            assert(self.paths@.map_values(|p: String| p@) =~= crate::text::string_views(self.paths@));
        }
        Module { name: self.name.clone(), description: self.description.clone(), paths }
    }
}

/// Copies of the categories.
pub fn clone_categories(v: &[Category]) -> (r: Vec<Category>)
    ensures
        category_models(r@) == category_models(v@),
{
    let mut r: Vec<Category> = Vec::new();
    let mut i: usize = 0;
    while i < v.len()
        invariant
            i <= v@.len(),
            category_models(r@) == category_models(v@).take(i as int),
        decreases v.len() - i,
    {
        let ghost before = r@;
        let c = v[i].duplicate();
        r.push(c);
        assert(category_models(r@) =~= category_models(before).push(v@[i as int]@));
        i = i + 1;
        assert(category_models(r@) =~= category_models(v@).take(i as int));
    }
    assert(category_models(v@).take(v@.len() as int) =~= category_models(v@));
    r
}

/// Copies of the modules.
pub fn clone_modules(v: &[Module]) -> (r: Vec<Module>)
    ensures
        module_models(r@) == module_models(v@),
{
    let mut r: Vec<Module> = Vec::new();
    let mut i: usize = 0;
    while i < v.len()
        invariant
            i <= v@.len(),
            module_models(r@) == module_models(v@).take(i as int),
        decreases v.len() - i,
    {
        let ghost before = r@;
        let m = v[i].duplicate();
        r.push(m);
        assert(module_models(r@) =~= module_models(before).push(v@[i as int]@));
        i = i + 1;
        assert(module_models(r@) =~= module_models(v@).take(i as int));
    }
    assert(module_models(v@).take(v@.len() as int) =~= module_models(v@));
    r
}

/// The values of a list of categories.
pub open spec fn category_models(v: Seq<Category>) -> Seq<CategoryModel> {
    v.map_values(|c: Category| c@)
}

/// The values of a list of modules.
pub open spec fn module_models(v: Seq<Module>) -> Seq<ModuleModel> {
    v.map_values(|m: Module| m@)
}

impl View for Config {
    type V = ConfigModel;

    open spec fn view(&self) -> ConfigModel {
        ConfigModel {
            commit: self.commit@,
            categories: category_models(self.categories@),
            modules: module_models(self.modules@),
        }
    }
}

/// The built-in commit settings.
pub open spec fn default_commit_model() -> CommitModel {
    CommitModel {
        template: "$type($mod): $message"@,
        ask_description: true,
        attach_emoji: false,
        auto_push: false,
    }
}

/// The built-in categories, with no emoji.
pub open spec fn default_category_models() -> Seq<CategoryModel> {
    default_category_specs().map_values(
        |p: (Seq<char>, Seq<char>)| CategoryModel { name: p.0, description: p.1, emoji: seq![] },
    )
}

impl Default for CommitConfig {
    fn default() -> (r: Self)
        ensures
            r@ == default_commit_model(),
    {
        CommitConfig {
            template: "$type($mod): $message".to_owned(),
            ask_description: true,
            attach_emoji: false,
            auto_push: false,
        }
    }
}

impl Default for Config {
    fn default() -> (r: Self)
        ensures
            r@.commit == default_commit_model(),
            r@.categories == default_category_models(),
            r@.modules == Seq::<ModuleModel>::empty(),
    {
        let statics = default_categories();
        let mut categories: Vec<Category> = Vec::new();
        let mut i: usize = 0;
        while i < statics.len()
            invariant
                i <= statics.len(),
                statics@.len() == default_category_specs().len(),
                forall|j: int|
                    0 <= j < statics@.len() ==> (#[trigger] statics@[j].name@,
                    statics@[j].description@) == default_category_specs()[j],
                category_models(categories@) == default_category_models().take(i as int),
            decreases statics.len() - i,
        {
            let s = &statics[i];
            let c = Category {
                name: s.name.to_owned(),
                description: s.description.to_owned(),
                emoji: String::new(),
            };
            let ghost before = categories@;
            categories.push(c);
            i = i + 1;
            proof {
                assert((statics@[i - 1].name@, statics@[i - 1].description@)
                    == default_category_specs()[i - 1]);
                assert(category_models(categories@) =~= category_models(before) + seq![c@]);
                assert(default_category_models().take(i as int) =~= default_category_models().take(
                    i - 1,
                ) + seq![default_category_models()[i - 1]]);
            }
        }
        assert(default_category_models().take(i as int) =~= default_category_models());
        let commit: CommitConfig = CommitConfig::default();
        let r = Config { commit, categories, modules: Vec::new() };
        assert(module_models(r.modules@) =~= Seq::<ModuleModel>::empty());
        r
    }
}

// ── Formatting ───────────────────────────────────────────

/// The trimmed emoji of the first category named `name`, or nothing.
pub open spec fn emoji_for(categories: Seq<CategoryModel>, name: Seq<char>) -> Seq<char>
    decreases categories.len(),
{
    if categories.len() == 0 {
        seq![]
    } else if categories[0].name == name {
        trim_spec(categories[0].emoji)
    } else {
        emoji_for(categories.drop_first(), name)
    }
}

/// The template with `$type` and `$message` filled in and `$mod` either
/// filled in or, with no module, removed along with the brackets around it.
pub open spec fn filled_template(
    template: Seq<char>,
    category: Seq<char>,
    module: Option<Seq<char>>,
    message: Seq<char>,
) -> Seq<char> {
    let r = replace_spec(replace_spec(template, "$type"@, category), "$message"@, message);
    match module {
        Some(m) if m.len() > 0 => replace_spec(r, "$mod"@, m),
        _ => replace_spec(
            replace_spec(replace_spec(replace_spec(r, "($mod)"@, seq![]), "[$mod]"@, seq![]),
            "$mod"@, seq![]),
            "  "@,
            " "@,
        ),
    }
}

/// What `format_subject` gives: for the category `none` the message, with
/// `(<module>): ` in front when a module is given; otherwise the trimmed,
/// filled template, preceded by the category's emoji when emoji are on.
pub open spec fn subject_spec(
    cfg: ConfigModel,
    category: Seq<char>,
    module: Option<Seq<char>>,
    message: Seq<char>,
) -> Seq<char> {
    if category == "none"@ {
        match module {
            Some(m) if m.len() > 0 => "("@ + m + "): "@ + message,
            _ => message,
        }
    } else {
        let subject = trim_spec(filled_template(cfg.commit.template, category, module, message));
        let emoji = emoji_for(cfg.categories, category);
        if !cfg.commit.attach_emoji || emoji.len() == 0 {
            subject
        } else {
            emoji + subject
        }
    }
}

/// What `format_commit` gives: the subject, and the description after a
/// blank line unless the description is blank.
pub open spec fn commit_message_spec(
    cfg: ConfigModel,
    category: Seq<char>,
    module: Option<Seq<char>>,
    message: Seq<char>,
    description: Seq<char>,
) -> Seq<char> {
    let subject = subject_spec(cfg, category, module, message);
    if trim_spec(description).len() == 0 {
        subject
    } else {
        subject + "\n\n"@ + description
    }
}

/// The view of an optional string slice.
pub open spec fn opt_view(o: Option<&str>) -> Option<Seq<char>> {
    match o {
        Some(s) => Some(s@),
        None => None,
    }
}


// ── Parsed configuration files ───────────────────────────

/// The `[commit]` section of a configuration file, as parsed.
pub struct RawCommit {
    pub template: Option<String>,
    pub ask_description: Option<bool>,
    pub attach_emoji: Option<bool>,
    /// Older name of `attach_emoji`, read when `attach_emoji` is absent.
    pub show_emoji: Option<bool>,
    pub auto_push: Option<bool>,
}

/// One entry of `[categories]`, as parsed.
pub enum RawCategory {
    /// `name = "description"`
    Shorthand(String),
    /// `name = { desc = .., emoji = .. }`
    Table { desc: Option<String>, emoji: Option<String> },
    /// An entry of another shape; the parser's explanation.
    Invalid(String),
}

/// One entry of `[modules]`, as parsed.
pub enum RawModule {
    /// `name = "description"`
    Shorthand(String),
    /// `name = { desc = .., path = .., paths = [..] }`
    Table { desc: Option<String>, path: Option<String>, paths: Option<Vec<String>> },
    /// An entry of another shape; the parser's explanation.
    Invalid(String),
}

/// A parsed configuration file; the tables keep the order in which the
/// parser handed their entries over.
pub struct RawConfig {
    pub commit: Option<RawCommit>,
    pub categories: Option<Vec<(String, RawCategory)>>,
    pub modules: Option<Vec<(String, RawModule)>>,
}

/// An entry of a configuration file that was skipped.
#[derive(Debug)]
pub enum ConfigWarning {
    InvalidCategory { name: String, error: String },
    InvalidModule { name: String, error: String },
}

/// The mathematical value of a warning: whether it concerns a category,
/// the entry's name and the explanation.
pub struct WarningModel {
    pub category: bool,
    pub name: Seq<char>,
    pub error: Seq<char>,
}

impl View for ConfigWarning {
    type V = WarningModel;

    open spec fn view(&self) -> WarningModel {
        match self {
            ConfigWarning::InvalidCategory { name, error } => WarningModel {
                category: true,
                name: name@,
                error: error@,
            },
            ConfigWarning::InvalidModule { name, error } => WarningModel {
                category: false,
                name: name@,
                error: error@,
            },
        }
    }
}

/// The values of a list of warnings.
impl ConfigWarning {
    /// The warning as printed.
    pub fn text(&self) -> (r: String)
        ensures
            r@ == (if self@.category {
                "Invalid category entry for '"@
            } else {
                "Invalid module entry for '"@
            }) + self@.name + "': "@ + self@.error,
    {
        let (prefix, name, error) = match self {
            ConfigWarning::InvalidCategory { name, error } => ("Invalid category entry for '", name, error),
            ConfigWarning::InvalidModule { name, error } => ("Invalid module entry for '", name, error),
        };
        let mut s = prefix.to_owned();
        s.append(name.as_str());
        s.append("': ");
        s.append(error.as_str());
        s
    }
}

/// The models of a list of configuration warnings, in order.
pub open spec fn warning_models(v: Seq<ConfigWarning>) -> Seq<WarningModel> {
    v.map_values(|w: ConfigWarning| w@)
}

/// The text of an optional string, or nothing.
pub open spec fn text_or_empty(o: Option<String>) -> Seq<char> {
    match o {
        Some(s) => s@,
        None => seq![],
    }
}

/// The commit settings after a `[commit]` section is merged in: each
/// field that the section sets wins; `attach_emoji` falls back to
/// `show_emoji`.
pub open spec fn apply_commit_spec(c: CommitModel, raw: Option<RawCommit>) -> CommitModel {
    match raw {
        None => c,
        Some(r) => CommitModel {
            template: match r.template {
                Some(t) => t@,
                None => c.template,
            },
            ask_description: match r.ask_description {
                Some(v) => v,
                None => c.ask_description,
            },
            attach_emoji: match r.attach_emoji {
                Some(v) => v,
                None => match r.show_emoji {
                    Some(v) => v,
                    None => c.attach_emoji,
                },
            },
            auto_push: match r.auto_push {
                Some(v) => v,
                None => c.auto_push,
            },
        },
    }
}

/// The category an entry stands for, if it is valid.
pub open spec fn category_entry(name: Seq<char>, e: RawCategory) -> Option<CategoryModel> {
    match e {
        RawCategory::Shorthand(d) => Some(CategoryModel { name, description: d@, emoji: seq![] }),
        RawCategory::Table { desc, emoji } => Some(
            CategoryModel { name, description: text_or_empty(desc), emoji: text_or_empty(emoji) },
        ),
        RawCategory::Invalid(_) => None,
    }
}

/// The categories that the valid entries stand for, in order.
pub open spec fn categories_from(entries: Seq<(String, RawCategory)>) -> Seq<CategoryModel>
    decreases entries.len(),
{
    if entries.len() == 0 {
        seq![]
    } else {
        let rest = categories_from(entries.drop_last());
        match category_entry(entries.last().0@, entries.last().1) {
            Some(c) => rest.push(c),
            None => rest,
        }
    }
}

/// Some category entry uses the shorthand `name = "description"`.
pub open spec fn uses_shorthand(entries: Seq<(String, RawCategory)>) -> bool {
    exists|i: int| 0 <= i < entries.len() && (#[trigger] entries[i]).1 is Shorthand
}

/// The warnings for the invalid category entries, in order.
pub open spec fn category_warnings(entries: Seq<(String, RawCategory)>) -> Seq<WarningModel>
    decreases entries.len(),
{
    if entries.len() == 0 {
        seq![]
    } else {
        let rest = category_warnings(entries.drop_last());
        match entries.last().1 {
            RawCategory::Invalid(e) => rest.push(
                WarningModel { category: true, name: entries.last().0@, error: e@ },
            ),
            _ => rest,
        }
    }
}

/// `p` with every leading `./` removed (`str::trim_start_matches("./")`).
pub open spec fn trim_dot_slash(p: Seq<char>) -> Seq<char>
    decreases p.len(),
{
    if p.len() >= 2 && p[0] == '.' && p[1] == '/' {
        trim_dot_slash(p.skip(2))
    } else {
        p
    }
}

/// `p` with every trailing `/` removed (`str::trim_end_matches('/')`).
pub open spec fn trim_trailing_slash(p: Seq<char>) -> Seq<char>
    decreases p.len(),
{
    if p.len() > 0 && p.last() == '/' {
        trim_trailing_slash(p.drop_last())
    } else {
        p
    }
}

/// A module path as it is compared: trimmed, without leading `./` and
/// trailing `/`.
pub open spec fn normalize_spec(p: Seq<char>) -> Seq<char> {
    trim_trailing_slash(trim_dot_slash(trim_spec(p)))
}

/// The normalized, non-empty paths of a list, in order.
pub open spec fn normalized_paths(ps: Seq<Seq<char>>) -> Seq<Seq<char>>
    decreases ps.len(),
{
    if ps.len() == 0 {
        seq![]
    } else {
        let rest = normalized_paths(ps.drop_last());
        let n = normalize_spec(ps.last());
        if n.len() > 0 {
            rest.push(n)
        } else {
            rest
        }
    }
}

/// The paths of a module entry: `path` first, then `paths`, each
/// normalized, empty ones dropped.
pub open spec fn module_paths_spec(path: Option<String>, paths: Option<Vec<String>>) -> Seq<
    Seq<char>,
> {
    let first = match path {
        Some(p) => seq![p@],
        None => seq![],
    };
    let more = match paths {
        Some(v) => string_views(v@),
        None => seq![],
    };
    normalized_paths(first + more)
}

/// The module an entry stands for, if it is valid.
pub open spec fn module_entry(name: Seq<char>, e: RawModule) -> Option<ModuleModel> {
    match e {
        RawModule::Shorthand(d) => Some(ModuleModel { name, description: d@, paths: seq![] }),
        RawModule::Table { desc, path, paths } => Some(
            ModuleModel {
                name,
                description: text_or_empty(desc),
                paths: module_paths_spec(path, paths),
            },
        ),
        RawModule::Invalid(_) => None,
    }
}

/// The modules that the valid entries stand for, in order.
pub open spec fn modules_from(entries: Seq<(String, RawModule)>) -> Seq<ModuleModel>
    decreases entries.len(),
{
    if entries.len() == 0 {
        seq![]
    } else {
        let rest = modules_from(entries.drop_last());
        match module_entry(entries.last().0@, entries.last().1) {
            Some(m) => rest.push(m),
            None => rest,
        }
    }
}

/// The warnings for the invalid module entries, in order.
pub open spec fn module_warnings(entries: Seq<(String, RawModule)>) -> Seq<WarningModel>
    decreases entries.len(),
{
    if entries.len() == 0 {
        seq![]
    } else {
        let rest = module_warnings(entries.drop_last());
        match entries.last().1 {
            RawModule::Invalid(e) => rest.push(
                WarningModel { category: false, name: entries.last().0@, error: e@ },
            ),
            _ => rest,
        }
    }
}

/// A configuration with a parsed file merged on top: commit fields that
/// the file sets win; a `[categories]` or `[modules]` table replaces the
/// whole list; shorthand categories turn emoji off.
pub open spec fn apply_spec(cfg: ConfigModel, raw: RawConfig) -> ConfigModel {
    let commit = apply_commit_spec(cfg.commit, raw.commit);
    let (categories, commit) = match raw.categories {
        Some(entries) => (
            categories_from(entries@),
            if uses_shorthand(entries@) {
                CommitModel { attach_emoji: false, ..commit }
            } else {
                commit
            },
        ),
        None => (cfg.categories, commit),
    };
    let modules = match raw.modules {
        Some(entries) => modules_from(entries@),
        None => cfg.modules,
    };
    ConfigModel { commit, categories, modules }
}

/// The warnings that merging a parsed file gives: its invalid category
/// entries, then its invalid module entries.
pub open spec fn apply_warnings(raw: RawConfig) -> Seq<WarningModel> {
    let c = match raw.categories {
        Some(entries) => category_warnings(entries@),
        None => seq![],
    };
    let m = match raw.modules {
        Some(entries) => module_warnings(entries@),
        None => seq![],
    };
    c + m
}

/// The built-in configuration.
pub open spec fn default_model() -> ConfigModel {
    ConfigModel {
        commit: default_commit_model(),
        categories: default_category_models(),
        modules: seq![],
    }
}

/// Built-in defaults, then the global file, then the local one.
pub open spec fn load_spec(global: Option<RawConfig>, local: Option<RawConfig>) -> ConfigModel {
    let g = match global {
        Some(raw) => apply_spec(default_model(), raw),
        None => default_model(),
    };
    match local {
        Some(raw) => apply_spec(g, raw),
        None => g,
    }
}

/// The warnings of loading: those of the global file, then the local one.
pub open spec fn load_warnings(global: Option<RawConfig>, local: Option<RawConfig>) -> Seq<
    WarningModel,
> {
    let g = match global {
        Some(raw) => apply_warnings(raw),
        None => seq![],
    };
    let l = match local {
        Some(raw) => apply_warnings(raw),
        None => seq![],
    };
    g + l
}

// ── Module recommendation ────────────────────────────────

/// The paths that a changed-file entry names: a rename `old -> new` names
/// both, each trimmed.
pub open spec fn candidates_spec(file: Seq<char>) -> Seq<Seq<char>> {
    split_spec(file, " -> "@).map_values(|p: Seq<char>| trim_spec(p))
}

/// A file lies in a module path: it is the path or lies under it.
pub open spec fn file_matches_spec(file: Seq<char>, mod_path: Seq<char>) -> bool {
    file == mod_path || starts_with_spec(file, mod_path + "/"@)
}

/// Some path that the entry names lies in one of the module's paths.
pub open spec fn file_hits(paths: Seq<Seq<char>>, file: Seq<char>) -> bool {
    exists|i: int, j: int|
        0 <= i < candidates_spec(file).len() && 0 <= j < paths.len() && file_matches_spec(
            #[trigger] candidates_spec(file)[i],
            #[trigger] paths[j],
        )
}

/// How many of the changed files lie in a module's paths.
pub open spec fn score_spec(paths: Seq<Seq<char>>, files: Seq<Seq<char>>) -> nat
    decreases files.len(),
{
    if files.len() == 0 {
        0
    } else {
        score_spec(paths, files.drop_last()) + if file_hits(paths, files.last()) {
            1nat
        } else {
            0nat
        }
    }
}

/// The score of the module at position `j`.
pub open spec fn module_score(modules: Seq<ModuleModel>, files: Seq<Seq<char>>, j: int) -> nat {
    score_spec(modules[j].paths, files)
}

/// Module `k` is the one to recommend: its score is positive and
/// highest, and every module before it scores less.
pub open spec fn is_recommended(modules: Seq<ModuleModel>, files: Seq<Seq<char>>, k: int) -> bool {
    &&& 0 <= k < modules.len()
    &&& module_score(modules, files, k) > 0
    &&& forall|j: int|
        0 <= j < modules.len() ==> #[trigger] module_score(modules, files, j) <= module_score(
            modules,
            files,
            k,
        )
    &&& forall|j: int|
        0 <= j < k ==> #[trigger] module_score(modules, files, j) < module_score(modules, files, k)
}

/// The name of the module to recommend, if any module is.
pub open spec fn recommended_spec(modules: Seq<ModuleModel>, files: Seq<Seq<char>>) -> Option<Seq<char>> {
    if exists|k: int| is_recommended(modules, files, k) {
        Some(modules[choose|k: int| is_recommended(modules, files, k)].name)
    } else {
        None
    }
}

/// At most one module is the one to recommend.
pub proof fn lemma_recommended_unique(modules: Seq<ModuleModel>, files: Seq<Seq<char>>, a: int, b: int)
    requires
        is_recommended(modules, files, a),
        is_recommended(modules, files, b),
    ensures
        a == b,
{
    assert(module_score(modules, files, a) <= module_score(modules, files, b));
    assert(module_score(modules, files, b) <= module_score(modules, files, a));
    if a < b {
        assert(module_score(modules, files, a) < module_score(modules, files, b));
    } else if b < a {
        assert(module_score(modules, files, b) < module_score(modules, files, a));
    }
}

/// A module without paths scores nothing.
pub proof fn lemma_score_no_paths(paths: Seq<Seq<char>>, files: Seq<Seq<char>>)
    requires
        paths.len() == 0,
    ensures
        score_spec(paths, files) == 0,
    decreases files.len(),
{
    if files.len() > 0 {
        lemma_score_no_paths(paths, files.drop_last());
    }
}

/// Normalizes a configured module path.
pub fn normalize_module_path(path: &str) -> (r: String)
    ensures
        r@ == normalize_spec(path@),
{
    let c = chars_of(path);
    let t = trim_chars(&c);
    let mut a: usize = 0;
    assert(t@.skip(0) =~= t@);
    while a < t.len() && t.len() - a >= 2 && t[a] == '.' && t[a + 1] == '/'
        invariant
            a <= t.len(),
            trim_dot_slash(t@) == trim_dot_slash(t@.skip(a as int)),
        decreases t.len() - a,
    {
        assert(t@.skip(a as int).skip(2) =~= t@.skip(a + 2));
        a = a + 2;
    }
    assert(trim_dot_slash(t@.skip(a as int)) == t@.skip(a as int));
    let mut b: usize = t.len();
    assert(t@.skip(a as int).take(b - a) =~= t@.skip(a as int));
    while b > a && t[b - 1] == '/'
        invariant
            a <= b <= t.len(),
            normalize_spec(path@) == trim_trailing_slash(t@.subrange(a as int, b as int)),
        decreases b,
    {
        assert(t@.subrange(a as int, b as int).drop_last() =~= t@.subrange(a as int, b - 1));
        b = b - 1;
    }
    let s = crate::text::slice_chars(&t, a, b);
    string_from(s.as_slice())
}

/// The paths that a changed-file entry names.
pub fn changed_file_candidates(path: &str) -> (r: Vec<Vec<char>>)
    ensures
        views(r@) == candidates_spec(path@),
{
    proof {
        reveal_strlit(" -> ");
    }
    let c = chars_of(path);
    let parts = split_chars(&c, &chars_of(" -> "));
    let mut r: Vec<Vec<char>> = Vec::new();
    let mut i: usize = 0;
    while i < parts.len()
        invariant
            i <= parts.len(),
            views(parts@) == split_spec(path@, " -> "@),
            views(r@) == split_spec(path@, " -> "@).take(i as int).map_values(
                |p: Seq<char>| trim_spec(p),
            ),
        decreases parts.len() - i,
    {
        let t = trim_chars(&parts[i]);
        let ghost before = r@;
        r.push(t);
        i = i + 1;
        proof {
            assert(views(parts@)[i - 1] == parts@[i - 1]@);
            assert(views(r@) =~= views(before) + seq![t@]);
            assert(split_spec(path@, " -> "@).take(i as int).map_values(|p: Seq<char>| trim_spec(p))
                =~= split_spec(path@, " -> "@).take(i - 1).map_values(|p: Seq<char>| trim_spec(p))
                + seq![t@]);
        }
    }
    assert(split_spec(path@, " -> "@).take(i as int) =~= split_spec(path@, " -> "@));
    r
}

/// A file lies in a module path.
pub fn file_matches_module_path(file_path: &Vec<char>, mod_path: &Vec<char>) -> (r: bool)
    ensures
        r == file_matches_spec(file_path@, mod_path@),
{
    if eq_chars(file_path, mod_path) {
        return true;
    }
    let mut with_slash = mod_path.clone();
    with_slash.push('/');
    proof {
        reveal_strlit("/");
        assert(with_slash@ =~= mod_path@ + "/"@);
    }
    starts_with(file_path, &with_slash)
}


/// The text of an optional string, or an empty string.
fn text_of(o: &Option<String>) -> (r: String)
    ensures
        r@ == text_or_empty(*o),
{
    match o {
        Some(s) => s.clone(),
        None => String::new(),
    }
}

/// The paths of a module entry, normalized, empty ones dropped.
fn module_paths(path: &Option<String>, paths: &Option<Vec<String>>) -> (r: Vec<String>)
    ensures
        string_views(r@) == module_paths_spec(*path, *paths),
{
    let mut all: Vec<String> = Vec::new();
    match path {
        Some(p) => all.push(p.clone()),
        None => {},
    }
    match paths {
        Some(v) => {
            let mut k: usize = 0;
            while k < v.len()
                invariant
                    k <= v.len(),
                    string_views(all@) == (match path {
                        Some(p) => seq![p@],
                        None => Seq::<Seq<char>>::empty(),
                    }) + string_views(v@).take(k as int),
                decreases v.len() - k,
            {
                let ghost before = all@;
                all.push(v[k].clone());
                k = k + 1;
                proof {
                    assert(string_views(all@) =~= string_views(before) + seq![v@[k - 1]@]);
                    assert(string_views(v@).take(k as int) =~= string_views(v@).take(k - 1) + seq![
                        v@[k - 1]@,
                    ]);
                }
            }
            assert(string_views(v@).take(k as int) =~= string_views(v@));
        },
        None => {},
    }
    let ghost combined = string_views(all@);
    assert(combined =~= (match path {
        Some(p) => seq![p@],
        None => Seq::<Seq<char>>::empty(),
    }) + (match paths {
        Some(v) => string_views(v@),
        None => Seq::<Seq<char>>::empty(),
    }));
    let mut r: Vec<String> = Vec::new();
    let mut i: usize = 0;
    while i < all.len()
        invariant
            i <= all.len(),
            combined == string_views(all@),
            string_views(r@) == normalized_paths(combined.take(i as int)),
        decreases all.len() - i,
    {
        let n = normalize_module_path(all[i].as_str());
        let ghost before = r@;
        proof {
            assert(combined.take(i + 1).drop_last() =~= combined.take(i as int));
            assert(combined.take(i + 1).last() == all@[i as int]@);
        }
        if !n.as_str().is_empty() {
            r.push(n);
            assert(string_views(r@) =~= string_views(before).push(n@));
        }
        i = i + 1;
    }
    assert(combined.take(i as int) =~= combined);
    r
}


/// Whether some path that a changed-file entry names lies in one of the
/// given module paths.
fn file_hits_exec(paths: &Vec<String>, file: &String) -> (r: bool)
    ensures
        r == file_hits(string_views(paths@), file@),
{
    let cands = changed_file_candidates(file.as_str());
    let ghost ps = string_views(paths@);
    let mut i: usize = 0;
    while i < cands.len()
        invariant
            i <= cands.len(),
            views(cands@) == candidates_spec(file@),
            ps == string_views(paths@),
            forall|a: int, b: int|
                0 <= a < i && 0 <= b < ps.len() ==> !file_matches_spec(
                    #[trigger] candidates_spec(file@)[a],
                    #[trigger] ps[b],
                ),
        decreases cands.len() - i,
    {
        let mut j: usize = 0;
        while j < paths.len()
            invariant
                i < cands.len(),
                j <= paths.len(),
                views(cands@) == candidates_spec(file@),
                ps == string_views(paths@),
                forall|b: int|
                    0 <= b < j ==> !file_matches_spec(
                        candidates_spec(file@)[i as int],
                        #[trigger] ps[b],
                    ),
            decreases paths.len() - j,
        {
            let p = chars_of(paths[j].as_str());
            assert(views(cands@)[i as int] == cands@[i as int]@);
            assert(ps[j as int] == paths@[j as int]@);
            if file_matches_module_path(&cands[i], &p) {
                return true;
            }
            j = j + 1;
        }
        i = i + 1;
    }
    false
}

/// How many of the changed files lie in the given module paths.
fn score_exec(paths: &Vec<String>, files: &[String]) -> (r: usize)
    ensures
        r == score_spec(string_views(paths@), string_views(files@)),
{
    let ghost fs = string_views(files@);
    let mut score: usize = 0;
    let mut k: usize = 0;
    while k < files.len()
        invariant
            k <= files.len(),
            fs == string_views(files@),
            score == score_spec(string_views(paths@), fs.take(k as int)),
            score <= k,
        decreases files.len() - k,
    {
        proof {
            assert(fs.take(k + 1).drop_last() =~= fs.take(k as int));
            assert(fs.take(k + 1).last() == files@[k as int]@);
        }
        if file_hits_exec(paths, &files[k]) {
            score = score + 1;
        }
        k = k + 1;
    }
    assert(fs.take(k as int) =~= fs);
    score
}

impl Config {
    /// Merge a parsed configuration file on top of this configuration;
    /// gives the entries that were skipped as invalid.
    pub fn apply(&mut self, raw: &RawConfig) -> (w: Vec<ConfigWarning>)
        ensures
            final(self)@ == apply_spec(old(self)@, *raw),
            warning_models(w@) == apply_warnings(*raw),
    {
        let mut warnings: Vec<ConfigWarning> = Vec::new();
        // Commit settings
        match &raw.commit {
            Some(c) => {
                match &c.template {
                    Some(t) => {
                        self.commit.template = t.clone();
                    },
                    None => {},
                }
                match c.ask_description {
                    Some(v) => {
                        self.commit.ask_description = v;
                    },
                    None => {},
                }
                match c.attach_emoji {
                    Some(v) => {
                        self.commit.attach_emoji = v;
                    },
                    None => match c.show_emoji {
                        Some(v) => {
                            self.commit.attach_emoji = v;
                        },
                        None => {},
                    },
                }
                match c.auto_push {
                    Some(v) => {
                        self.commit.auto_push = v;
                    },
                    None => {},
                }
            },
            None => {},
        }
        assert(self@.commit == apply_commit_spec(old(self)@.commit, raw.commit));
        // Categories – if provided, *replace* the full list
        match &raw.categories {
            Some(entries) => {
                let mut cats: Vec<Category> = Vec::new();
                let mut used_shorthand = false;
                let mut i: usize = 0;
                while i < entries.len()
                    invariant
                        i <= entries.len(),
                        category_models(cats@) == categories_from(entries@.take(i as int)),
                        warning_models(warnings@) == category_warnings(entries@.take(i as int)),
                        used_shorthand == exists|j: int|
                            0 <= j < i && (#[trigger] entries@[j]).1 is Shorthand,
                    decreases entries.len() - i,
                {
                    let ghost c0 = cats@;
                    let ghost w0 = warnings@;
                    let ghost pre = entries@.take(i + 1);
                    proof {
                        assert(pre.drop_last() =~= entries@.take(i as int));
                        assert(pre.last() == entries@[i as int]);
                    }
                    let entry = &entries[i];
                    match &entry.1 {
                        RawCategory::Shorthand(d) => {
                            used_shorthand = true;
                            let c = Category {
                                name: entry.0.clone(),
                                emoji: String::new(),
                                description: d.clone(),
                            };
                            cats.push(c);
                            assert(category_models(cats@) =~= category_models(c0).push(c@));
                        },
                        RawCategory::Table { desc, emoji } => {
                            let c = Category {
                                name: entry.0.clone(),
                                emoji: text_of(emoji),
                                description: text_of(desc),
                            };
                            cats.push(c);
                            assert(category_models(cats@) =~= category_models(c0).push(c@));
                        },
                        RawCategory::Invalid(e) => {
                            let w = ConfigWarning::InvalidCategory {
                                name: entry.0.clone(),
                                error: e.clone(),
                            };
                            warnings.push(w);
                            assert(warning_models(warnings@) =~= warning_models(w0).push(w@));
                        },
                    }
                    i = i + 1;
                }
                assert(entries@.take(i as int) =~= entries@);
                self.categories = cats;
                if used_shorthand {
                    self.commit.attach_emoji = false;
                }
            },
            None => {},
        }
        let ghost wc = warning_models(warnings@);
        // Modules – if provided, *replace* the full list
        match &raw.modules {
            Some(entries) => {
                let mut mods: Vec<Module> = Vec::new();
                let mut mw: Vec<ConfigWarning> = Vec::new();
                let mut i: usize = 0;
                while i < entries.len()
                    invariant
                        i <= entries.len(),
                        module_models(mods@) == modules_from(entries@.take(i as int)),
                        warning_models(mw@) == module_warnings(entries@.take(i as int)),
                    decreases entries.len() - i,
                {
                    let ghost m0 = mods@;
                    let ghost w0 = mw@;
                    let ghost pre = entries@.take(i + 1);
                    proof {
                        assert(pre.drop_last() =~= entries@.take(i as int));
                        assert(pre.last() == entries@[i as int]);
                    }
                    let entry = &entries[i];
                    match &entry.1 {
                        RawModule::Shorthand(d) => {
                            let m = Module {
                                name: entry.0.clone(),
                                description: d.clone(),
                                paths: Vec::new(),
                            };
                            mods.push(m);
                            assert(m@.paths =~= Seq::<Seq<char>>::empty());
                            assert(module_models(mods@) =~= module_models(m0).push(m@));
                        },
                        RawModule::Table { desc, path, paths } => {
                            let ps = module_paths(path, paths);
                            let m = Module {
                                name: entry.0.clone(),
                                description: text_of(desc),
                                paths: ps,
                            };
                            mods.push(m);
                            assert(m@.paths =~= string_views(ps@));
                            assert(module_models(mods@) =~= module_models(m0).push(m@));
                        },
                        RawModule::Invalid(e) => {
                            let w = ConfigWarning::InvalidModule {
                                name: entry.0.clone(),
                                error: e.clone(),
                            };
                            mw.push(w);
                            assert(warning_models(mw@) =~= warning_models(w0).push(w@));
                        },
                    }
                    i = i + 1;
                }
                assert(entries@.take(i as int) =~= entries@);
                self.modules = mods;
                let ghost wbefore = warnings@;
                warnings.append(&mut mw);
                assert(warning_models(warnings@) =~= warning_models(wbefore) + module_warnings(
                    entries@,
                ));
            },
            None => {
                assert(warning_models(warnings@) =~= wc + Seq::<WarningModel>::empty());
            },
        }
        warnings
    }

    /// The configuration from the built-in defaults, the global file and
    /// the local file, in this order; local values override global ones.
    /// Gives the entries that were skipped as invalid.
    pub fn load(global: Option<RawConfig>, local: Option<RawConfig>) -> (r: (
        Config,
        Vec<ConfigWarning>,
    ))
        ensures
            r.0@ == load_spec(global, local),
            warning_models(r.1@) == load_warnings(global, local),
    {
        let mut cfg = Config::default();
        assert(cfg@ == default_model());
        let mut warnings: Vec<ConfigWarning> = Vec::new();
        match &global {
            Some(raw) => {
                let mut w = cfg.apply(raw);
                warnings.append(&mut w);
                assert(warning_models(warnings@) =~= apply_warnings(*raw));
            },
            None => {},
        }
        let ghost wg = warning_models(warnings@);
        match &local {
            Some(raw) => {
                let ghost before = warnings@;
                let mut w = cfg.apply(raw);
                warnings.append(&mut w);
                assert(warning_models(warnings@) =~= warning_models(before) + apply_warnings(*raw));
            },
            None => {
                assert(warning_models(warnings@) =~= wg + Seq::<WarningModel>::empty());
            },
        }
        (cfg, warnings)
    }
}

impl Config {
    /// The trimmed emoji of the first category named `name`, or nothing.
    fn emoji_of(&self, name: &Vec<char>) -> (r: Vec<char>)
        ensures
            r@ == emoji_for(self@.categories, name@),
    {
        let mut i: usize = 0;
        assert(self@.categories.skip(0) =~= self@.categories);
        while i < self.categories.len()
            invariant
                i <= self.categories.len(),
                emoji_for(self@.categories, name@) == emoji_for(
                    self@.categories.skip(i as int),
                    name@,
                ),
            decreases self.categories.len() - i,
        {
            let ghost rest = self@.categories.skip(i as int);
            assert(rest[0] == self.categories@[i as int]@);
            let cname = chars_of(self.categories[i].name.as_str());
            if eq_chars(&cname, name) {
                let e = chars_of(self.categories[i].emoji.as_str());
                return trim_chars(&e);
            }
            i = i + 1;
            assert(rest.drop_first() =~= self@.categories.skip(i as int));
        }
        Vec::new()
    }

    /// Format a commit subject using the configured template.
    /// Placeholders: `$type`, `$mod`, `$message`
    pub fn format_subject(&self, category: &str, module: Option<&str>, message: &str) -> (r:
        String)
        ensures
            r@ == subject_spec(self@, category@, opt_view(module), message@),
    {
        proof {
            reveal_strlit("$type");
            reveal_strlit("$message");
            reveal_strlit("$mod");
            reveal_strlit("($mod)");
            reveal_strlit("[$mod]");
            reveal_strlit("  ");
        }
        let msg = chars_of(message);
        if crate::text::str_eq(category, "none") {
            match module {
                Some(m) => {
                    if !m.is_empty() {
                        let open = chars_of("(");
                        let close = chars_of("): ");
                        let mc = chars_of(m);
                        let a = concat_chars(&open, &mc);
                        let b = concat_chars(&a, &close);
                        let c = concat_chars(&b, &msg);
                        return string_from(c.as_slice());
                    }
                },
                None => {},
            }
            return message.to_owned();
        }
        let template = chars_of(self.commit.template.as_str());
        let cat = chars_of(category);
        let r = replace_chars(&template, &chars_of("$type"), &cat);
        let r = replace_chars(&r, &chars_of("$message"), &msg);
        let empty: Vec<char> = Vec::new();
        let filled = match module {
            Some(m) if !m.is_empty() => replace_chars(&r, &chars_of("$mod"), &chars_of(m)),
            _ => {
                let r = replace_chars(&r, &chars_of("($mod)"), &empty);
                let r = replace_chars(&r, &chars_of("[$mod]"), &empty);
                let r = replace_chars(&r, &chars_of("$mod"), &empty);
                replace_chars(&r, &chars_of("  "), &chars_of(" "))
            },
        };
        let subject = trim_chars(&filled);
        if !self.commit.attach_emoji {
            return string_from(subject.as_slice());
        }
        let emoji = self.emoji_of(&cat);
        if emoji.len() == 0 {
            string_from(subject.as_slice())
        } else {
            let full = concat_chars(&emoji, &subject);
            string_from(full.as_slice())
        }
    }

    /// Recommend a module based on changed file path frequency.
    /// If multiple modules tie, the first one in config order wins.
    pub fn recommended_module_name<'a>(&'a self, files: &[String]) -> (r: Option<&'a str>)
        ensures
            match r {
                Some(name) => exists|k: int|
                    is_recommended(self@.modules, string_views(files@), k) && name@
                        == self@.modules[k].name,
                None => forall|j: int|
                    0 <= j < self@.modules.len() ==> #[trigger] module_score(
                        self@.modules,
                        string_views(files@),
                        j,
                    ) == 0,
            },
            opt_view(r) == recommended_spec(self@.modules, string_views(files@)),
    {
        let ghost ms = self@.modules;
        let ghost fs = string_views(files@);
        let mut best_idx: Option<usize> = None;
        let mut best_score: usize = 0;
        let mut idx: usize = 0;
        while idx < self.modules.len()
            invariant
                idx <= self.modules.len(),
                ms == self@.modules,
                fs == string_views(files@),
                forall|j: int| 0 <= j < idx ==> #[trigger] module_score(ms, fs, j) <= best_score,
                match best_idx {
                    None => best_score == 0,
                    Some(k) => {
                        &&& k < idx
                        &&& module_score(ms, fs, k as int) == best_score
                        &&& best_score > 0
                        &&& forall|j: int|
                            0 <= j < k ==> #[trigger] module_score(ms, fs, j) < best_score
                    },
                },
            decreases self.modules.len() - idx,
        {
            let module = &self.modules[idx];
            assert(ms[idx as int] == module@);
            if module.paths.len() == 0 {
                proof {
                    lemma_score_no_paths(ms[idx as int].paths, fs);
                }
                idx = idx + 1;
                continue;
            }
            let score = score_exec(&module.paths, files);
            if score > best_score {
                best_score = score;
                best_idx = Some(idx);
            }
            idx = idx + 1;
        }
        match best_idx {
            Some(k) => {
                assert(is_recommended(ms, fs, k as int));
                assert(ms[k as int].name == self.modules@[k as int].name@);
                proof {
                    let c = choose|j: int| is_recommended(ms, fs, j);
                    lemma_recommended_unique(ms, fs, c, k as int);
                }
                Some(self.modules[k].name.as_str())
            },
            None => {
                assert(!exists|j: int| is_recommended(ms, fs, j)) by {
                    if exists|j: int| is_recommended(ms, fs, j) {
                        let j = choose|j: int| is_recommended(ms, fs, j);
                        assert(module_score(ms, fs, j) == 0);
                    }
                }
                None
            },
        }
    }

    /// Build full commit message (subject + optional description).
    pub fn format_commit(
        &self,
        category: &str,
        module: Option<&str>,
        message: &str,
        description: &str,
    ) -> (r: String)
        ensures
            r@ == commit_message_spec(self@, category@, opt_view(module), message@, description@),
    {
        let subject = self.format_subject(category, module, message);
        let d = chars_of(description);
        let t = trim_chars(&d);
        if t.len() == 0 {
            subject
        } else {
            let s = chars_of(subject.as_str());
            let a = concat_chars(&s, &chars_of("\n\n"));
            let b = concat_chars(&a, &d);
            string_from(b.as_slice())
        }
    }

    /// Whether modules are configured.
    pub fn has_modules(&self) -> (r: bool)
        ensures
            r == (self.modules@.len() > 0),
    {
        self.modules.len() > 0
    }

    /// Returns the default TOML content written by `sit init`.
    pub fn default_toml() -> (r: &'static str)
        ensures
            r@ == default_toml_text(),
    {
        "[commit]\ntemplate        = \"$type($mod): $message\"\nask_description = true\nauto_push       = false\n\n\n[categories]\nfeat     = \"Add a new feature\"\nfix      = \"Fix a bug\"\ndocs     = \"Documentation changes\"\nstyle    = \"Code style / formatting\"\nrefactor = \"Refactor code\"\nperf     = \"Performance improvement\"\ntest     = \"Add or update tests\"\nbuild    = \"Build system changes\"\nci       = \"CI/CD changes\"\nchore    = \"Maintenance / chores\"\nrevert   = \"Revert a commit\"\nwip      = \"Work in progress\"\nnone     = \"No category prefix\"\n"
    }
}

/// The configuration file that `sit init` writes.
pub open spec fn default_toml_text() -> Seq<char> {
    "[commit]\ntemplate        = \"$type($mod): $message\"\nask_description = true\nauto_push       = false\n\n\n[categories]\nfeat     = \"Add a new feature\"\nfix      = \"Fix a bug\"\ndocs     = \"Documentation changes\"\nstyle    = \"Code style / formatting\"\nrefactor = \"Refactor code\"\nperf     = \"Performance improvement\"\ntest     = \"Add or update tests\"\nbuild    = \"Build system changes\"\nci       = \"CI/CD changes\"\nchore    = \"Maintenance / chores\"\nrevert   = \"Revert a commit\"\nwip      = \"Work in progress\"\nnone     = \"No category prefix\"\n"@
}

} // verus!

verus! {

// ── Laws ─────────────────────────────────────────────────

/// A file without any section leaves the configuration unchanged
/// ("missing fields keep defaults").
pub proof fn law_empty_file_changes_nothing(cfg: ConfigModel, raw: RawConfig)
    requires
        raw.commit is None,
        raw.categories is None,
        raw.modules is None,
    ensures
        apply_spec(cfg, raw) == cfg,
{
}

/// A `[commit]` field set in the local file wins over the global file
/// and the defaults, whatever the global file says.
pub proof fn law_local_commit_fields_win(global: Option<RawConfig>, local: RawConfig)
    requires
        local.commit is Some,
    ensures
        ({
            let c = local.commit->0;
            let r = load_spec(global, Some(local)).commit;
            &&& (c.template matches Some(t) ==> r.template == t@)
            &&& (c.ask_description matches Some(v) ==> r.ask_description == v)
            &&& (c.auto_push matches Some(v) ==> r.auto_push == v)
        }),
{
}

/// A `[categories]` table replaces the whole list: the categories are
/// those of the table's valid entries, whatever came before.
pub proof fn law_categories_table_replaces(
    cfg: ConfigModel,
    raw: RawConfig,
    entries: Vec<(String, RawCategory)>,
)
    requires
        raw.categories == Some(entries),
    ensures
        apply_spec(cfg, raw).categories == categories_from(entries@),
{
}

/// A `[modules]` table replaces the whole list.
pub proof fn law_modules_table_replaces(
    cfg: ConfigModel,
    raw: RawConfig,
    entries: Vec<(String, RawModule)>,
)
    requires
        raw.modules == Some(entries),
    ensures
        apply_spec(cfg, raw).modules == modules_from(entries@),
{
}

/// With a local `[categories]` or `[modules]` table, the global file's
/// lists do not matter.
pub proof fn law_local_tables_hide_global(
    g1: Option<RawConfig>,
    g2: Option<RawConfig>,
    local: RawConfig,
)
    ensures
        local.categories is Some ==> load_spec(g1, Some(local)).categories == load_spec(
            g2,
            Some(local),
        ).categories,
        local.modules is Some ==> load_spec(g1, Some(local)).modules == load_spec(
            g2,
            Some(local),
        ).modules,
{
}

proof fn lemma_trim_dot_slash_result(p: Seq<char>)
    ensures
        !(trim_dot_slash(p).len() >= 2 && trim_dot_slash(p)[0] == '.' && trim_dot_slash(p)[1]
            == '/'),
        exists|a: int| 0 <= a <= p.len() && trim_dot_slash(p) == p.skip(a),
    decreases p.len(),
{
    if p.len() >= 2 && p[0] == '.' && p[1] == '/' {
        lemma_trim_dot_slash_result(p.skip(2));
        let a = choose|a: int| 0 <= a <= p.skip(2).len() && trim_dot_slash(p.skip(2)) == p.skip(
            2,
        ).skip(a);
        assert(p.skip(2).skip(a) =~= p.skip(a + 2));
    } else {
        assert(p.skip(0) =~= p);
    }
}

proof fn lemma_trim_trailing_slash_result(p: Seq<char>)
    ensures
        !(trim_trailing_slash(p).len() > 0 && trim_trailing_slash(p).last() == '/'),
        exists|b: int| 0 <= b <= p.len() && trim_trailing_slash(p) == p.take(b),
    decreases p.len(),
{
    if p.len() > 0 && p.last() == '/' {
        lemma_trim_trailing_slash_result(p.drop_last());
        let b = choose|b: int| 0 <= b <= p.drop_last().len() && trim_trailing_slash(p.drop_last())
            == p.drop_last().take(b);
        assert(p.drop_last().take(b) =~= p.take(b));
    } else {
        assert(p.take(p.len() as int) =~= p);
    }
}

/// A normalized module path neither starts with `./` nor ends with `/`.
pub proof fn law_normalized_path_has_no_dot_slash_or_trailing_slash(p: Seq<char>)
    ensures
        !starts_with_spec(normalize_spec(p), "./"@),
        !ends_with_spec(normalize_spec(p), "/"@),
{
    reveal_strlit("./");
    reveal_strlit("/");
    let d = trim_dot_slash(trim_spec(p));
    lemma_trim_dot_slash_result(trim_spec(p));
    lemma_trim_trailing_slash_result(d);
    let n = normalize_spec(p);
    let b = choose|b: int| 0 <= b <= d.len() && trim_trailing_slash(d) == d.take(b);
    if starts_with_spec(n, "./"@) {
        assert(n.take(2) == "./"@);
        assert(n.take(2)[0] == n[0] && n.take(2)[1] == n[1]);
        assert(n[0] == '.' && n[1] == '/');
        assert(d[0] == n[0] && d[1] == n[1]);
    }
    if ends_with_spec(n, "/"@) {
        assert(n.skip(n.len() - 1) == "/"@);
        assert(n.last() == n.skip(n.len() - 1)[0]);
    }
}

/// The module recommended for a set of changed files is the one in whose
/// paths most of them lie; among modules that tie, the first configured.
pub proof fn law_recommendation_tie_goes_to_config_order(
    modules: Seq<ModuleModel>,
    files: Seq<Seq<char>>,
    j: int,
)
    requires
        0 <= j < modules.len(),
        module_score(modules, files, j) > 0,
        forall|i: int| 0 <= i < modules.len() ==> #[trigger] module_score(modules, files, i) <= module_score(modules, files, j),
        forall|i: int| 0 <= i < j ==> #[trigger] module_score(modules, files, i) < module_score(modules, files, j),
    ensures
        recommended_spec(modules, files) == Some(modules[j].name),
{
    assert(is_recommended(modules, files, j));
    let k = choose|k: int| is_recommended(modules, files, k);
    lemma_recommended_unique(modules, files, k, j);
}

/// The emoji found for a category name is the trimmed emoji of the first
/// category with that name.
proof fn lemma_emoji_of_first(categories: Seq<CategoryModel>, name: Seq<char>, i: int)
    requires
        0 <= i < categories.len(),
        categories[i].name == name,
        forall|j: int| 0 <= j < i ==> (#[trigger] categories[j]).name != name,
    ensures
        emoji_for(categories, name) == trim_spec(categories[i].emoji),
    decreases i,
{
    if i > 0 {
        let rest = categories.drop_first();
        assert(categories[0].name != name);
        assert forall|j: int| 0 <= j < i - 1 implies (#[trigger] rest[j]).name != name by {
            assert(rest[j] == categories[j + 1]);
        }
        lemma_emoji_of_first(rest, name, i - 1);
    }
}

/// Emoji in the subject: for a category other than `none`, the subject is
/// the filled template, trimmed; when `attach_emoji` is on and the first
/// category with that name has a non-blank emoji, that emoji (trimmed) comes
/// right before it; when `attach_emoji` is off, no emoji is ever added.
pub proof fn law_subject_emoji(
    cfg: ConfigModel,
    category: Seq<char>,
    module: Option<Seq<char>>,
    message: Seq<char>,
    i: int,
)
    requires
        category != "none"@,
        0 <= i < cfg.categories.len(),
        cfg.categories[i].name == category,
        forall|j: int| 0 <= j < i ==> (#[trigger] cfg.categories[j]).name != category,
    ensures
        cfg.commit.attach_emoji && trim_spec(cfg.categories[i].emoji).len() > 0 ==> subject_spec(
            cfg,
            category,
            module,
            message,
        ) == trim_spec(cfg.categories[i].emoji) + trim_spec(
            filled_template(cfg.commit.template, category, module, message),
        ),
        !cfg.commit.attach_emoji ==> subject_spec(cfg, category, module, message) == trim_spec(
            filled_template(cfg.commit.template, category, module, message),
        ),
        trim_spec(cfg.categories[i].emoji).len() == 0 ==> subject_spec(cfg, category, module, message)
            == trim_spec(filled_template(cfg.commit.template, category, module, message)),
{
    lemma_emoji_of_first(cfg.categories, category, i);
}

/// With attach_emoji off, or for a category that no entry names, the
/// subject is the filled template alone.
pub proof fn law_subject_without_emoji(
    cfg: ConfigModel,
    category: Seq<char>,
    module: Option<Seq<char>>,
    message: Seq<char>,
)
    requires
        category != "none"@,
        !cfg.commit.attach_emoji || forall|j: int|
            0 <= j < cfg.categories.len() ==> (#[trigger] cfg.categories[j]).name != category,
    ensures
        subject_spec(cfg, category, module, message) == trim_spec(
            filled_template(cfg.commit.template, category, module, message),
        ),
{
    if cfg.commit.attach_emoji {
        lemma_emoji_absent(cfg.categories, category);
    }
}

proof fn lemma_emoji_absent(categories: Seq<CategoryModel>, name: Seq<char>)
    requires
        forall|j: int| 0 <= j < categories.len() ==> (#[trigger] categories[j]).name != name,
    ensures
        emoji_for(categories, name) == Seq::<char>::empty(),
    decreases categories.len(),
{
    if categories.len() > 0 {
        let rest = categories.drop_first();
        assert(categories[0].name != name);
        assert forall|j: int| 0 <= j < rest.len() implies (#[trigger] rest[j]).name != name by {
            assert(rest[j] == categories[j + 1]);
        }
        lemma_emoji_absent(rest, name);
    }
}

/// How many of the first `k` category entries are valid.
pub open spec fn valid_categories_before(entries: Seq<(String, RawCategory)>, k: int) -> nat
    decreases k,
{
    if k <= 0 {
        0
    } else {
        valid_categories_before(entries, k - 1) + if entries[k - 1].1 is Invalid {
            0nat
        } else {
            1nat
        }
    }
}

proof fn lemma_valid_before_prefix(entries: Seq<(String, RawCategory)>, n: int, k: int)
    requires
        0 <= k <= n <= entries.len(),
    ensures
        valid_categories_before(entries.take(n), k) == valid_categories_before(entries, k),
    decreases k,
{
    if k > 0 {
        lemma_valid_before_prefix(entries, n, k - 1);
        assert(entries.take(n)[k - 1] == entries[k - 1]);
    }
}

proof fn lemma_categories_from_entries(entries: Seq<(String, RawCategory)>)
    ensures
        categories_from(entries).len() == valid_categories_before(entries, entries.len() as int),
        forall|k: int|
            0 <= k < entries.len() && !((#[trigger] entries[k]).1 is Invalid) ==> {
                let c = categories_from(entries)[valid_categories_before(entries, k) as int];
                &&& c.name == entries[k].0@
                &&& entries[k].1 matches RawCategory::Table { desc, emoji } ==> c.description == text_or_empty(desc)
                    && c.emoji == text_or_empty(emoji)
                &&& entries[k].1 matches RawCategory::Shorthand(d) ==> c.description == d@ && c.emoji
                    == Seq::<char>::empty()
            },
    decreases entries.len(),
{
    if entries.len() > 0 {
        let n = entries.len() - 1;
        let init = entries.drop_last();
        lemma_categories_from_entries(init);
        assert(init =~= entries.take(n));
        lemma_valid_before_prefix(entries, n, n);
        assert forall|k: int|
            0 <= k < entries.len() && !((#[trigger] entries[k]).1 is Invalid) implies {
                let c = categories_from(entries)[valid_categories_before(entries, k) as int];
                &&& c.name == entries[k].0@
                &&& entries[k].1 matches RawCategory::Table { desc, emoji } ==> c.description == text_or_empty(desc)
                    && c.emoji == text_or_empty(emoji)
                &&& entries[k].1 matches RawCategory::Shorthand(d) ==> c.description == d@ && c.emoji
                    == Seq::<char>::empty()
            } by {
            let cs = categories_from(init);
            if k < n {
                lemma_valid_before_prefix(entries, n, k);
                lemma_valid_before_mono(entries, k + 1, n);
                assert(init[k] == entries[k]);
                assert(valid_categories_before(entries, k) < cs.len());
            } else {
                assert(valid_categories_before(entries, k) == cs.len());
            }
        }
    }
}

proof fn lemma_valid_before_mono(entries: Seq<(String, RawCategory)>, a: int, b: int)
    requires
        0 <= a <= b,
    ensures
        valid_categories_before(entries, a) <= valid_categories_before(entries, b),
    decreases b,
{
    if a < b {
        lemma_valid_before_mono(entries, a, b - 1);
    }
}

/// A `[categories]` table gives one category per valid entry, in order:
/// the entry's name, and for `name = { desc = d, emoji = e }` the
/// description `d` and the emoji `e` (each empty when absent); for the
/// shorthand `name = "d"` the description `d` and no emoji.
pub proof fn law_category_entries(cfg: ConfigModel, raw: RawConfig, entries: Vec<(String, RawCategory)>)
    requires
        raw.categories == Some(entries),
    ensures
        apply_spec(cfg, raw).categories.len() == valid_categories_before(entries@, entries@.len() as int),
        forall|k: int|
            0 <= k < entries@.len() && !((#[trigger] entries@[k]).1 is Invalid) ==> {
                let c = apply_spec(cfg, raw).categories[valid_categories_before(entries@, k) as int];
                &&& c.name == entries@[k].0@
                &&& entries@[k].1 matches RawCategory::Table { desc, emoji } ==> c.description == text_or_empty(
                    desc,
                ) && c.emoji == text_or_empty(emoji)
                &&& entries@[k].1 matches RawCategory::Shorthand(d) ==> c.description == d@ && c.emoji
                    == Seq::<char>::empty()
            },
{
    lemma_categories_from_entries(entries@);
}

/// A changed file counts once toward a module's score exactly when one of
/// the paths it names (both sides of a rename) equals one of the module's
/// paths, any of them, or lies under it.
pub proof fn law_file_counts_by_any_path(paths: Seq<Seq<char>>, files: Seq<Seq<char>>, file: Seq<char>)
    ensures
        (exists|i: int, j: int|
            0 <= i < candidates_spec(file).len() && 0 <= j < paths.len() && (#[trigger] candidates_spec(file)[i]
                == #[trigger] paths[j] || starts_with_spec(candidates_spec(file)[i], paths[j] + "/"@)))
            ==> score_spec(paths, files.push(file)) == score_spec(paths, files) + 1,
        (forall|i: int, j: int|
            0 <= i < candidates_spec(file).len() && 0 <= j < paths.len() ==> !(#[trigger] candidates_spec(file)[i]
                == #[trigger] paths[j] || starts_with_spec(candidates_spec(file)[i], paths[j] + "/"@)))
            ==> score_spec(paths, files.push(file)) == score_spec(paths, files),
{
    assert(files.push(file).drop_last() =~= files);
    if exists|i: int, j: int|
        0 <= i < candidates_spec(file).len() && 0 <= j < paths.len() && (#[trigger] candidates_spec(file)[i]
            == #[trigger] paths[j] || starts_with_spec(candidates_spec(file)[i], paths[j] + "/"@)) {
        let (i, j) = choose|i: int, j: int|
            0 <= i < candidates_spec(file).len() && 0 <= j < paths.len() && (#[trigger] candidates_spec(file)[i]
                == #[trigger] paths[j] || starts_with_spec(candidates_spec(file)[i], paths[j] + "/"@));
        assert(file_matches_spec(candidates_spec(file)[i], paths[j]));
    }
}

} // verus!
