use tera::{Context, Error, Tera};
use vstd::prelude::*;
use vstd::string::StringSliceAdditionalSpecFns;

verus! {

#[verifier::external_type_specification]
#[verifier::external_body]
pub struct ExTera(Tera);

#[verifier::external_type_specification]
#[verifier::external_body]
pub struct ExContext(Context);

#[verifier::external_type_specification]
#[verifier::external_body]
pub struct ExError(Error);

/// Names of the templates that a tera engine holds.
pub uninterp spec fn template_names(t: Tera) -> Set<Seq<char>>;

/// Suffixes of the template names whose output a tera engine HTML-escapes.
pub uninterp spec fn escape_suffixes(t: Tera) -> Seq<Seq<char>>;

/// What tera's `Template::new` makes of one source text on its own: `None`
/// where it refuses the text (it does not parse, or declares a block or a
/// macro twice), else the name of the template that it extends, if any.
pub uninterp spec fn template_of(source: Seq<char>) -> Option<Option<Seq<char>>>;

/// Whether tera's `Tera::add_raw_templates` accepts these (name, source)
/// pairs on an engine that holds no template yet.
pub uninterp spec fn compiles(pairs: Seq<(Seq<char>, Seq<char>)>) -> bool;

/// Whether a source compiles into a template on its own.
pub open spec fn parses(source: Seq<char>) -> bool {
    template_of(source) is Some
}

/// The template that a source extends, if any.
pub open spec fn parent_of(source: Seq<char>) -> Option<Seq<char>> {
    template_of(source)->Some_0
}

/// Relies on `Tera::default`: an engine that holds no template yet.
#[verifier::external_body]
fn new_engine() -> (r: Tera)
    ensures
        template_names(r) == Set::<Seq<char>>::empty(),
{
    Tera::default()
}

/// Relies on `tera::Template::new`: it compiles one source on its own and
/// records the template that it extends.
#[verifier::external_body]
fn compile_one(name: &str, source: &str) -> (r: Result<Option<String>, Error>)
    ensures
        r is Ok <==> template_of(source@) is Some,
        r is Ok ==> template_of(source@) == Some(opt_view(r->Ok_0)),
{
    tera::Template::new(name, None, source).map(|t| t.parent)
}

/// Relies on `Tera::add_raw_templates`: it compiles each source in turn and
/// fails at the first that does not compile, then links every template to
/// the one it extends. That linking walks each chain of parents, so every
/// chain must end.
#[verifier::external_body]
fn add_sources(t: &mut Tera, sources: &Vec<(String, String)>) -> (r: Result<(), Error>)
    requires
        template_names(*old(t)) == Set::<Seq<char>>::empty(),
        chains_end(pair_views(sources@)),
    ensures
        r is Ok <==> compiles(pair_views(sources@)),
        r is Ok ==> forall|i: int| 0 <= i < sources@.len() ==> parses(#[trigger] sources@[i].1@),
        r is Ok ==> template_names(*final(t)) == source_names(sources@),
{
    t.add_raw_templates(sources.clone())
}

/// Relies on `Tera::autoescape_on`: it replaces the escaped suffixes and
/// leaves the templates as they are.
#[verifier::external_body]
fn set_escape_suffixes(t: &mut Tera, suffixes: Vec<&'static str>)
    ensures
        escape_suffixes(*final(t)) == suffixes@.map_values(|s: &'static str| s@),
        template_names(*final(t)) == template_names(*old(t)),
{
    t.autoescape_on(suffixes)
}

/// Relies on `Tera::get_template`: it finds a template by its name.
#[verifier::external_body]
fn holds_template(t: &Tera, name: &str) -> (r: bool)
    ensures
        r == template_names(*t).contains(name@),
{
    t.get_template(name).is_ok()
}

/// An optional name as text.
pub open spec fn opt_view(o: Option<String>) -> Option<Seq<char>> {
    match o {
        Some(s) => Some(s@),
        None => None,
    }
}

/// The (name, source) pairs as text.
pub open spec fn pair_views(sources: Seq<(String, String)>) -> Seq<(Seq<char>, Seq<char>)> {
    sources.map_values(|x: (String, String)| (x.0@, x.1@))
}

/// Whether every source compiles on its own.
pub open spec fn all_parse(pairs: Seq<(Seq<char>, Seq<char>)>) -> bool {
    forall|i: int| 0 <= i < pairs.len() ==> parses(#[trigger] pairs[i].1)
}

/// Each name with the template it extends, as (name, parent) pairs.
pub open spec fn parent_links(pairs: Seq<(Seq<char>, Seq<char>)>) -> Seq<
    (Seq<char>, Option<Seq<char>>),
> {
    pairs.map_values(|x: (Seq<char>, Seq<char>)| (x.0, parent_of(x.1)))
}

/// The map that (name, value) pairs build when inserted in order: a later
/// pair replaces an earlier one of the same name.
pub open spec fn link_map(links: Seq<(Seq<char>, Option<Seq<char>>)>) -> Map<
    Seq<char>,
    Option<Seq<char>>,
>
    decreases links.len(),
{
    if links.len() == 0 {
        Map::empty()
    } else {
        link_map(links.drop_last()).insert(links.last().0, links.last().1)
    }
}

/// The parent of each registered name.
pub open spec fn parent_map(pairs: Seq<(Seq<char>, Seq<char>)>) -> Map<
    Seq<char>,
    Option<Seq<char>>,
> {
    link_map(parent_links(pairs))
}

/// Where a walk up the parents from `n` stands after `k` steps: `None` once
/// it has left the registered names or reached a template without parent.
pub open spec fn walk(m: Map<Seq<char>, Option<Seq<char>>>, n: Seq<char>, k: nat) -> Option<
    Seq<char>,
>
    decreases k,
{
    if !m.contains_key(n) {
        None
    } else if k == 0 {
        Some(n)
    } else {
        match m[n] {
            Some(p) => walk(m, p, (k - 1) as nat),
            None => None,
        }
    }
}

/// Every chain of parents ends within as many steps as there are sources.
pub open spec fn chains_end(pairs: Seq<(Seq<char>, Seq<char>)>) -> bool {
    forall|n: Seq<char>| #[trigger]
        parent_map(pairs).contains_key(n) ==> walk(parent_map(pairs), n, pairs.len()) is None
}

proof fn lemma_key_has_index(links: Seq<(Seq<char>, Option<Seq<char>>)>, n: Seq<char>)
    requires
        link_map(links).contains_key(n),
    ensures
        exists|i: int| 0 <= i < links.len() && #[trigger] links[i].0 == n,
    decreases links.len(),
{
    if links.last().0 != n {
        lemma_key_has_index(links.drop_last(), n);
        let i = choose|i: int| 0 <= i < links.drop_last().len() && #[trigger] links.drop_last()[i].0 == n;
        assert(links[i].0 == n);
    } else {
        assert(links[links.len() - 1].0 == n);
    }
}

fn link_views(links: &Vec<(String, Option<String>)>) -> (r: Ghost<Seq<(Seq<char>, Option<Seq<char>>)>>)
    ensures
        r@.len() == links@.len(),
        forall|i: int| 0 <= i < links@.len() ==> (#[trigger] r@[i]) == (links@[i].0@, opt_view(links@[i].1)),
{
    Ghost(links@.map_values(|x: (String, Option<String>)| (x.0@, opt_view(x.1))))
}

/// Compiles each source on its own and records its parent.
fn compile_links(sources: &Vec<(String, String)>) -> (r: Result<Vec<(String, Option<String>)>, Error>)
    ensures
        r is Ok <==> all_parse(pair_views(sources@)),
        r is Ok ==> r->Ok_0@.len() == sources@.len(),
        r is Ok ==> forall|i: int| 0 <= i < sources@.len() ==>
            (#[trigger] r->Ok_0@[i]).0@ == sources@[i].0@ && opt_view(r->Ok_0@[i].1) == parent_of(sources@[i].1@),
{
    let mut links: Vec<(String, Option<String>)> = Vec::new();
    let mut i: usize = 0;
    while i < sources.len()
        invariant
            i <= sources@.len(),
            links@.len() == i,
            forall|j: int| 0 <= j < i ==> parses(#[trigger] sources@[j].1@),
            forall|j: int| 0 <= j < i ==>
                (#[trigger] links@[j]).0@ == sources@[j].0@ && opt_view(links@[j].1) == parent_of(sources@[j].1@),
        decreases sources@.len() - i,
    {
        match compile_one(sources[i].0.as_str(), sources[i].1.as_str()) {
            Ok(parent) => {
                links.push((sources[i].0.clone(), parent));
            },
            Err(e) => {
                assert(!parses(pair_views(sources@)[i as int].1));
                return Err(e);
            },
        }
        i = i + 1;
    }
    proof {
        assert forall|j: int| 0 <= j < sources@.len() implies parses(#[trigger] pair_views(sources@)[j].1) by {
            assert(pair_views(sources@)[j].1 == sources@[j].1@);
        }
    }
    Ok(links)
}

/// The names of a list of (name, source) pairs.
pub open spec fn source_names(sources: Seq<(String, String)>) -> Set<Seq<char>> {
    Set::new(|n: Seq<char>| exists|i: int| 0 <= i < sources.len() && #[trigger] sources[i].0@ == n)
}

/// Suffixes of template names whose output is HTML-escaped.
pub open spec fn escaped_suffixes() -> Seq<Seq<char>> {
    seq![".html"@, ".tera"@]
}

/// Suffix of the files that hold template sources.
pub const TEMPLATE_SUFFIX: &'static str = ".tera";

/// Whether the bytes `s` end with the bytes `suffix`.
pub open spec fn has_suffix(s: Seq<u8>, suffix: Seq<u8>) -> bool {
    suffix.len() <= s.len() && s.subrange(s.len() - suffix.len(), s.len() as int) == suffix
}

/// Whether a file path names a template source: it ends with the
/// template suffix.
pub fn is_template_source(path: &str) -> (r: bool)
    ensures
        r == has_suffix(path.spec_bytes(), TEMPLATE_SUFFIX.spec_bytes()),
{
    let s = path.as_bytes();
    let suffix = TEMPLATE_SUFFIX.as_bytes();
    let n: usize = s.len();
    if suffix.len() > n {
        return false;
    }
    let start: usize = n - suffix.len();
    let mut i: usize = 0;
    while i < suffix.len()
        invariant
            s@ == path.spec_bytes(),
            suffix@ == TEMPLATE_SUFFIX.spec_bytes(),
            start + suffix@.len() == s@.len(),
            s@.len() == n,
            i <= suffix@.len(),
            forall|j: int| 0 <= j < i ==> s@[start + j] == suffix@[j],
        decreases suffix@.len() - i,
    {
        if s[start + i] != suffix[i] {
            assert(s@.subrange(start as int, s@.len() as int)[i as int] != suffix@[i as int]);
            return false;
        }
        i = i + 1;
    }
    assert(s@.subrange(start as int, s@.len() as int) =~= suffix@);
    true
}

/// Index of the last link named `name`: the one that the map of links keeps.
fn find_last(links: &Vec<(String, Option<String>)>, name: &String, lv: Ghost<Seq<(Seq<char>, Option<Seq<char>>)>>) -> (r: Option<usize>)
    requires
        lv@.len() == links@.len(),
        forall|i: int| 0 <= i < links@.len() ==> (#[trigger] lv@[i]) == (links@[i].0@, opt_view(links@[i].1)),
    ensures
        r is None <==> !link_map(lv@).contains_key(name@),
        r is Some ==> r->Some_0 < links@.len() && lv@[r->Some_0 as int].0 == name@
            && link_map(lv@)[name@] == lv@[r->Some_0 as int].1,
{
    let mut i: usize = links.len();
    assert(lv@.take(i as int) =~= lv@);
    while i > 0
        invariant
            i <= links@.len(),
            lv@.len() == links@.len(),
            forall|j: int| 0 <= j < links@.len() ==> (#[trigger] lv@[j]) == (links@[j].0@, opt_view(links@[j].1)),
            link_map(lv@).contains_key(name@) == link_map(lv@.take(i as int)).contains_key(name@),
            link_map(lv@).contains_key(name@) ==> link_map(lv@)[name@] == link_map(lv@.take(i as int))[name@],
        decreases i,
    {
        i = i - 1;
        assert(lv@.take(i + 1).drop_last() =~= lv@.take(i as int));
        assert(lv@[i as int] == (links@[i as int].0@, opt_view(links@[i as int].1)));
        if links[i].0 == *name {
            return Some(i);
        }
    }
    assert(lv@.take(0).len() == 0);
    None
}

/// Whether the chain of parents from the link at `start` ends within as
/// many steps as there are links.
fn chain_ends(links: &Vec<(String, Option<String>)>, start: usize, lv: Ghost<Seq<(Seq<char>, Option<Seq<char>>)>>) -> (r: bool)
    requires
        start < links@.len(),
        lv@.len() == links@.len(),
        forall|i: int| 0 <= i < links@.len() ==> (#[trigger] lv@[i]) == (links@[i].0@, opt_view(links@[i].1)),
    ensures
        r == (walk(link_map(lv@), lv@[start as int].0, lv@.len() as nat) is None),
{
    let ghost m = link_map(lv@);
    let mut cur: &String = &links[start].0;
    assert(lv@[start as int] == (links@[start as int].0@, opt_view(links@[start as int].1)));
    let mut k: usize = 0;
    while k < links.len()
        invariant
            k <= links@.len(),
            lv@.len() == links@.len(),
            m == link_map(lv@),
            forall|i: int| 0 <= i < links@.len() ==> (#[trigger] lv@[i]) == (links@[i].0@, opt_view(links@[i].1)),
            walk(m, lv@[start as int].0, lv@.len() as nat) == walk(m, cur@, (lv@.len() - k) as nat),
        decreases links@.len() - k,
    {
        match find_last(links, cur, lv) {
            None => {
                return true;
            },
            Some(j) => {
                assert(lv@[j as int] == (links@[j as int].0@, opt_view(links@[j as int].1)));
                match &links[j].1 {
                    None => {
                        return true;
                    },
                    Some(p) => {
                        cur = p;
                    },
                }
            },
        }
        k = k + 1;
    }
    find_last(links, cur, lv).is_none()
}

/// Index of a link whose chain of parents does not end, if there is one.
fn find_loop(links: &Vec<(String, Option<String>)>, lv: Ghost<Seq<(Seq<char>, Option<Seq<char>>)>>) -> (r: Option<usize>)
    requires
        lv@.len() == links@.len(),
        forall|i: int| 0 <= i < links@.len() ==> (#[trigger] lv@[i]) == (links@[i].0@, opt_view(links@[i].1)),
    ensures
        r is None <==> forall|n: Seq<char>| #[trigger] link_map(lv@).contains_key(n)
            ==> walk(link_map(lv@), n, lv@.len() as nat) is None,
        r is Some ==> r->Some_0 < links@.len(),
{
    let mut i: usize = 0;
    while i < links.len()
        invariant
            i <= links@.len(),
            lv@.len() == links@.len(),
            forall|j: int| 0 <= j < links@.len() ==> (#[trigger] lv@[j]) == (links@[j].0@, opt_view(links@[j].1)),
            forall|j: int| 0 <= j < i ==> walk(link_map(lv@), (#[trigger] lv@[j]).0, lv@.len() as nat) is None,
        decreases links@.len() - i,
    {
        if !chain_ends(links, i, lv) {
            assert(link_map(lv@).contains_key(lv@[i as int].0));
            return Some(i);
        }
        i = i + 1;
    }
    proof {
        assert forall|n: Seq<char>| #[trigger] link_map(lv@).contains_key(n)
            implies walk(link_map(lv@), n, lv@.len() as nat) is None by {
            lemma_key_has_index(lv@, n);
            let j = choose|j: int| 0 <= j < lv@.len() && #[trigger] lv@[j].0 == n;
            assert(walk(link_map(lv@), lv@[j].0, lv@.len() as nat) is None);
        }
    }
    None
}

/// Why a set of templates could not be compiled, or a template not found.
pub enum TemplateError {
    /// A source failed to compile, or the set of templates is inconsistent
    /// (a parent or a macro file that is not in the set).
    Compilation(Error),
    /// The chain of parents from this template never ends.
    CircularExtend(String),
    /// No template of this name is registered.
    NotFound(String),
    /// The template was found but its evaluation failed.
    Render(Error),
}

/// The compiled templates of the service: built once, then only read.
pub struct TemplateRegistry {
    engine: Tera,
}

impl TemplateRegistry {
    /// Names of the registered templates.
    pub closed spec fn names(&self) -> Set<Seq<char>> {
        template_names(self.engine)
    }

    /// Suffixes of the names whose output is HTML-escaped.
    pub closed spec fn escaping(&self) -> Seq<Seq<char>> {
        escape_suffixes(self.engine)
    }

    /// Compiles every (name, source) pair and turns on HTML escaping for
    /// names ending in `.html` or `.tera`. A source that does not compile
    /// gives `Compilation`; a chain of parents that loops gives
    /// `CircularExtend`; otherwise the result is whatever tera makes of the
    /// whole set, and on success the registry holds exactly the given names.
    pub fn from_sources(sources: &Vec<(String, String)>) -> (r: Result<Self, TemplateError>)
        ensures
            !all_parse(pair_views(sources@)) ==> r is Err && r->Err_0 is Compilation,
            all_parse(pair_views(sources@)) && !chains_end(pair_views(sources@)) ==> r is Err
                && r->Err_0 is CircularExtend,
            all_parse(pair_views(sources@)) && chains_end(pair_views(sources@)) ==> (r is Ok
                <==> compiles(pair_views(sources@))),
            r is Err ==> r->Err_0 is Compilation || r->Err_0 is CircularExtend,
            r is Ok ==> r->Ok_0.names() == source_names(sources@),
            r is Ok ==> r->Ok_0.escaping() == escaped_suffixes(),
    {
        let links = match compile_links(sources) {
            Ok(l) => l,
            Err(e) => {
                return Err(TemplateError::Compilation(e));
            },
        };
        let lv = link_views(&links);
        proof {
            let pv = pair_views(sources@);
            assert forall|i: int| 0 <= i < lv@.len() implies #[trigger] lv@[i] == parent_links(pv)[i] by {
                assert(pv[i] == (sources@[i].0@, sources@[i].1@));
            }
            assert(lv@ =~= parent_links(pv));
        }
        match find_loop(&links, lv) {
            Some(i) => {
                return Err(TemplateError::CircularExtend(links[i].0.clone()));
            },
            None => {},
        }
        let mut engine = new_engine();
        match add_sources(&mut engine, sources) {
            Ok(()) => {},
            Err(e) => {
                return Err(TemplateError::Compilation(e));
            },
        }
        set_escape_suffixes(&mut engine, vec![".html", ".tera"]);
        proof {
            assert(escaped_suffixes() =~= seq![".html", ".tera"].map_values(
                |s: &'static str| s@,
            ));
        }
        Ok(TemplateRegistry { engine })
    }

    /// Whether a template of this name is registered.
    pub fn contains(&self, name: &str) -> (r: bool)
        ensures
            r == self.names().contains(name@),
    {
        holds_template(&self.engine, name)
    }

    /// The engine that holds the compiled templates, for rendering.
    pub fn engine(&self) -> (r: &Tera)
        ensures
            template_names(*r) == self.names(),
            escape_suffixes(*r) == self.escaping(),
    {
        &self.engine
    }
}

/// Checks that `name` is registered before it is rendered: a name that is
/// not gives `NotFound`, and nothing is rendered.
pub fn find_template(registry: &TemplateRegistry, name: &str) -> (r: Result<(), TemplateError>)
    ensures
        r is Ok <==> registry.names().contains(name@),
        r is Err ==> r->Err_0 is NotFound && r->Err_0->NotFound_0@ == name@,
{
    if registry.contains(name) {
        Ok(())
    } else {
        Err(TemplateError::NotFound(name.to_owned()))
    }
}

/// Turns what the engine rendered for a registered template into the
/// library's result: the text as it is, or a `Render` error.
pub fn render_outcome(outcome: Result<String, Error>) -> (r: Result<String, TemplateError>)
    ensures
        outcome is Ok <==> r is Ok,
        outcome is Ok ==> r->Ok_0 == outcome->Ok_0,
        r is Err ==> r->Err_0 is Render,
{
    match outcome {
        Ok(s) => Ok(s),
        Err(e) => Err(TemplateError::Render(e)),
    }
}

} // verus!
