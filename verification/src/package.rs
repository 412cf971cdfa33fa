//! The package generator: the root of the object graph, holding the
//! manifest metadata and the snippets groups, and rendering every file of
//! the package.

use vstd::prelude::*;
use vstd::string::*;
use crate::category::Category;
use crate::contributes::{Contributes, SnippetsContribute};
use crate::engines::Engines;
use crate::error::Error;
use crate::json::{push_quoted, quoted};
use crate::license::License;
use crate::readme::{readme_header, Readme};
use crate::repository::Repository;
use crate::snippets::{group_json, Snippets, SnippetsView};
use crate::snippets_doc::doc_text;
use crate::strutil::push_spaces;
use crate::strutil::spaces;
use crate::version::{valid_version, Version};

verus! {

/// The mathematical content of a [`Package`].
pub ghost struct PackageView {
    pub id: Seq<char>,
    pub name: Seq<char>,
    pub description: Seq<char>,
    pub version: Seq<char>,
    pub categories: Seq<Seq<char>>,
    pub icon: Option<Seq<char>>,
    pub repository: Option<(Seq<char>, Seq<char>)>,
    pub engines_vscode: Seq<char>,
    pub contributes: Seq<(Seq<char>, Seq<char>)>,
    pub groups: Option<Seq<SnippetsView>>,
    pub license: Seq<char>,
}

impl PackageView {
    /// The manifest's declared snippet contributions are exactly the
    /// projection of the group list, every group is well formed, and the
    /// version text passed the format check.
    pub open spec fn wf(self) -> bool {
        &&& self.groups matches Some(gs) && {
            &&& self.contributes.len() == gs.len()
            &&& forall|i: int|
                0 <= i < gs.len() ==> self.contributes[i] == (
                    gs[i].language,
                    "snippets/"@ + gs[i].file_name,
                )
            &&& forall|i: int| 0 <= i < gs.len() ==> (#[trigger] gs[i]).wf()
        }
        &&& valid_version(self.version)
    }
}

/// The package generator.
#[derive(Debug, Clone)]
pub struct Package {
    id: String,
    name: String,
    description: String,
    version: Version,
    categories: Vec<Category>,
    icon: Option<String>,
    repository: Option<Repository>,
    engines: Engines,
    contributes: Contributes,
    snippets: Option<Vec<Snippets>>,
    license: License,
}

impl View for Package {
    type V = PackageView;

    closed spec fn view(&self) -> PackageView {
        PackageView {
            id: self.id@,
            name: self.name@,
            description: self.description@,
            version: self.version@,
            categories: Seq::new(self.categories@.len(), |i: int| self.categories@[i]@),
            icon: match self.icon {
                Some(s) => Some(s@),
                None => None,
            },
            repository: match self.repository {
                Some(r) => Some((r.kind@, r.url@)),
                None => None,
            },
            engines_vscode: self.engines.vscode@,
            contributes: Seq::new(
                self.contributes.snippets@.len(),
                |i: int|
                    (self.contributes.snippets@[i].language@, self.contributes.snippets@[i].path@),
            ),
            groups: match self.snippets {
                Some(gs) => Some(Seq::new(gs@.len(), |i: int| gs@[i]@)),
                None => None,
            },
            license: self.license@,
        }
    }
}

impl Package {
    /// Adds a new snippets group to the package: registers its language and
    /// output path in the manifest's contributes and retains the group.
    pub fn add_snippets_group(&mut self, snips: Snippets)
        ensures
            old(self)@.groups matches Some(gs) ==> final(self)@ == (PackageView {
                contributes: old(self)@.contributes.push(
                    (snips@.language, "snippets/"@ + snips@.file_name),
                ),
                groups: Some(gs.push(snips@)),
                ..old(self)@
            }),
            old(self)@.groups is None ==> final(self)@ == old(self)@,
            old(self)@.wf() && snips@.wf() ==> final(self)@.wf(),
    {
        let taken = self.snippets.take();
        match taken {
            Some(mut gs) => {
                let ghost old_contribs = self@.contributes;
                let ghost old_groups = Seq::new(gs@.len(), |i: int| gs@[i]@);
                self.contributes.reg_snippets(
                    SnippetsContribute::new(snips.language().as_str(), snips.file_name().as_str()),
                );
                let ghost snips_view = snips@;
                gs.push(snips);
                self.snippets = Some(gs);
                proof {
                    assert(self@.contributes =~= old_contribs.push(
                        (snips_view.language, "snippets/"@ + snips_view.file_name),
                    ));
                    assert(self@.groups matches Some(now) && now =~= old_groups.push(snips_view));
                }
            },
            None => {
                self.snippets = None;
            },
        }
    }

    /// Creates a new snippets package object and adds the given groups in
    /// order.
    /// * id - the id name of the package
    /// * name - the package name
    /// * description - the package description
    /// * version - the package version, already parsed
    /// * icon - the package icon image path
    /// * repository - the package repository URL, if any
    /// * snippets - the snippets groups of the package
    /// * license - the package license
    pub fn snippets(
        id: &str,
        name: &str,
        description: &str,
        version: Version,
        icon: &str,
        repository: Option<&str>,
        snippets: Vec<Snippets>,
        license: License,
    ) -> (r: Self)
        requires
            version.wf(),
            forall|i: int| 0 <= i < snippets@.len() ==> (#[trigger] snippets@[i]@).wf(),
        ensures
            r@.wf(),
            r@.id == id@,
            r@.name == name@,
            r@.description == description@,
            r@.version == version@,
            r@.categories == seq!["Snippets"@],
            r@.icon == Some(icon@),
            repository matches Some(u) ==> r@.repository == Some(("git"@, u@)),
            repository is None ==> r@.repository is None,
            r@.engines_vscode == "^1.90.0"@,
            r@.groups == Some(Seq::new(snippets@.len(), |i: int| snippets@[i]@)),
            r@.license == license@,
    {
        let mut categories: Vec<Category> = Vec::new();
        categories.push(Category::Snippets);
        let repo = match repository {
            Some(u) => Some(Repository::from_url(u)),
            None => None,
        };
        let mut this = Package {
            id: id.to_owned(),
            name: name.to_owned(),
            description: description.to_owned(),
            version,
            categories,
            icon: Some(icon.to_owned()),
            repository: repo,
            engines: Engines::default(),
            contributes: Contributes::new(),
            snippets: Some(Vec::new()),
            license,
        };
        proof {
            assert(this@.categories =~= seq!["Snippets"@]);
            assert(this@.contributes =~= Seq::<(Seq<char>, Seq<char>)>::empty());
            assert(this@.groups matches Some(gs) && gs =~= Seq::<SnippetsView>::empty());
        }
        let ghost given = snippets@;
        let mut rest = snippets;
        let total = rest.len();
        let mut idx: usize = 0;
        proof {
            assert(rest@ =~= given.skip(0));
        }
        while rest.len() > 0
            invariant
                given.len() == total,
                idx + rest@.len() == given.len(),
                rest@ == given.skip(idx as int),
                forall|i: int| 0 <= i < given.len() ==> (#[trigger] given[i]@).wf(),
                this@.wf(),
                this@.id == id@,
                this@.name == name@,
                this@.description == description@,
                this@.version == version@,
                this@.categories == seq!["Snippets"@],
                this@.icon == Some(icon@),
                repository matches Some(u) ==> this@.repository == Some(("git"@, u@)),
                repository is None ==> this@.repository is None,
                this@.engines_vscode == "^1.90.0"@,
                this@.license == license@,
                this@.groups matches Some(gs) && gs == Seq::new(
                    idx as nat,
                    |i: int| given[i]@,
                ),
            decreases rest@.len(),
        {
            let s = rest.remove(0);
            proof {
                assert(s == given[idx as int]);
                assert(rest@ =~= given.skip(idx as int + 1));
            }
            let ghost before_groups = (match this@.groups {
                Some(gs) => gs,
                None => Seq::empty(),
            });
            this.add_snippets_group(s);
            proof {
                assert(this@.groups matches Some(now) && now =~= Seq::new(
                    (idx + 1) as nat,
                    |i: int| given[i]@,
                ));
            }
            idx = idx + 1;
        }
        proof {
            assert(this@.groups matches Some(gs) && gs =~= Seq::new(
                given.len(),
                |i: int| given[i]@,
            ));
        }
        this
    }
}

/// The category names as a JSON array's items, indented four spaces.
pub open spec fn category_items_json(cats: Seq<Seq<char>>) -> Seq<char>
    decreases cats.len(),
{
    if cats.len() == 0 {
        Seq::empty()
    } else if cats.len() == 1 {
        spaces(4) + quoted(cats[0])
    } else {
        category_items_json(cats.drop_last()) + ",\n"@ + spaces(4) + quoted(cats.last())
    }
}

/// The categories of the manifest as a JSON array.
pub open spec fn categories_json(cats: Seq<Seq<char>>) -> Seq<char> {
    if cats.len() == 0 {
        "[]"@
    } else {
        "[\n"@ + category_items_json(cats) + "\n  ]"@
    }
}

/// One member of the `contributes.snippets` array: a language and a path.
pub open spec fn contribute_json(e: (Seq<char>, Seq<char>)) -> Seq<char> {
    spaces(6) + "{\n"@ + spaces(8) + "\"language\": "@ + quoted(e.0) + ",\n"@ + spaces(8)
        + "\"path\": "@ + quoted(e.1) + "\n"@ + spaces(6) + "}"@
}

/// The members of the `contributes.snippets` array, comma-separated.
pub open spec fn contribute_items_json(es: Seq<(Seq<char>, Seq<char>)>) -> Seq<char>
    decreases es.len(),
{
    if es.len() == 0 {
        Seq::empty()
    } else if es.len() == 1 {
        contribute_json(es[0])
    } else {
        contribute_items_json(es.drop_last()) + ",\n"@ + contribute_json(es.last())
    }
}

/// The `contributes.snippets` list as a JSON array.
pub open spec fn contributes_json(es: Seq<(Seq<char>, Seq<char>)>) -> Seq<char> {
    if es.len() == 0 {
        "[]"@
    } else {
        "[\n"@ + contribute_items_json(es) + "\n"@ + spaces(4) + "]"@
    }
}

/// The manifest text up to and including the categories array.
pub open spec fn manifest_head_json(p: PackageView) -> Seq<char> {
    "{\n  \"name\": "@ + quoted(p.id) + ",\n  \"displayName\": "@ + quoted(p.name)
        + ",\n  \"description\": "@ + quoted(p.description) + ",\n  \"version\": "@ + quoted(
        p.version,
    ) + ",\n  \"categories\": "@ + categories_json(p.categories)
}

/// The optional manifest fields: icon and repository, each omitted
/// entirely when it holds no value.
pub open spec fn manifest_opt_json(p: PackageView) -> Seq<char> {
    (match p.icon {
        Some(ic) => ",\n  \"icon\": "@ + quoted(ic),
        None => Seq::empty(),
    }) + (match p.repository {
        Some(r) => ",\n  \"repository\": {\n    \"type\": "@ + quoted(r.0) + ",\n    \"url\": "@
            + quoted(r.1) + "\n  }"@,
        None => Seq::empty(),
    })
}

/// The manifest text from the engines field to the closing brace.
pub open spec fn manifest_tail_json(p: PackageView) -> Seq<char> {
    ",\n  \"engines\": {\n    \"vscode\": "@ + quoted(p.engines_vscode)
        + "\n  },\n  \"contributes\": {\n    \"snippets\": "@ + contributes_json(p.contributes)
        + "\n  }\n}"@
}

/// The package manifest as pretty-printed JSON.
pub open spec fn manifest_json(p: PackageView) -> Seq<char> {
    manifest_head_json(p) + manifest_opt_json(p) + manifest_tail_json(p)
}

fn push_labeled(out: &mut String, label: &str, value: &str)
    ensures
        final(out)@ == old(out)@ + label@ + quoted(value@),
{
    out.append(label);
    push_quoted(out, value);
}

fn push_categories(out: &mut String, cats: &Vec<Category>)
    ensures
        final(out)@ == old(out)@ + categories_json(Seq::new(cats@.len(), |i: int| cats@[i]@)),
{
    let ghost catsv = Seq::new(cats@.len(), |i: int| cats@[i]@);
    if cats.len() == 0 {
        out.append("[]");
        return ;
    }
    out.append("[\n");
    let ghost mid = out@;
    let mut i: usize = 0;
    proof {
        assert(catsv.take(0) =~= Seq::<Seq<char>>::empty());
        assert(out@ =~= mid + category_items_json(catsv.take(0)));
    }
    while i < cats.len()
        invariant
            i <= cats@.len(),
            catsv == Seq::new(cats@.len(), |j: int| cats@[j]@),
            catsv.len() == cats@.len(),
            out@ == mid + category_items_json(catsv.take(i as int)),
        decreases cats@.len() - i,
    {
        if i > 0 {
            out.append(",\n");
        }
        push_spaces(out, 4);
        push_quoted(out, cats[i].name());
        proof {
            assert(catsv.take(i as int + 1).drop_last() =~= catsv.take(i as int));
            assert(catsv.take(i as int + 1).last() == catsv[i as int]);
            assert(out@ =~= mid + category_items_json(catsv.take(i as int + 1)));
        }
        i = i + 1;
    }
    out.append("\n  ]");
    proof {
        assert(catsv.take(cats@.len() as int) =~= catsv);
        assert(out@ =~= old(out)@ + categories_json(catsv));
    }
}

fn push_contribute(out: &mut String, e: &SnippetsContribute)
    ensures
        final(out)@ == old(out)@ + contribute_json((e.language@, e.path@)),
{
    push_spaces(out, 6);
    out.append("{\n");
    push_spaces(out, 8);
    push_labeled(out, "\"language\": ", e.language.as_str());
    out.append(",\n");
    push_spaces(out, 8);
    push_labeled(out, "\"path\": ", e.path.as_str());
    out.append("\n");
    push_spaces(out, 6);
    out.append("}");
    proof {
        assert(out@ =~= old(out)@ + contribute_json((e.language@, e.path@)));
    }
}

fn push_contributes(out: &mut String, list: &Vec<SnippetsContribute>)
    ensures
        final(out)@ == old(out)@ + contributes_json(
            Seq::new(list@.len(), |i: int| (list@[i].language@, list@[i].path@)),
        ),
{
    let ghost esv = Seq::new(list@.len(), |i: int| (list@[i].language@, list@[i].path@));
    if list.len() == 0 {
        out.append("[]");
        return ;
    }
    out.append("[\n");
    let ghost mid = out@;
    let mut i: usize = 0;
    proof {
        assert(esv.take(0) =~= Seq::<(Seq<char>, Seq<char>)>::empty());
        assert(out@ =~= mid + contribute_items_json(esv.take(0)));
    }
    while i < list.len()
        invariant
            i <= list@.len(),
            esv == Seq::new(list@.len(), |j: int| (list@[j].language@, list@[j].path@)),
            esv.len() == list@.len(),
            out@ == mid + contribute_items_json(esv.take(i as int)),
        decreases list@.len() - i,
    {
        if i > 0 {
            out.append(",\n");
        }
        push_contribute(out, &list[i]);
        proof {
            assert(esv.take(i as int + 1).drop_last() =~= esv.take(i as int));
            assert(esv.take(i as int + 1).last() == esv[i as int]);
            assert(out@ =~= mid + contribute_items_json(esv.take(i as int + 1)));
        }
        i = i + 1;
    }
    out.append("\n");
    push_spaces(out, 4);
    out.append("]");
    proof {
        assert(esv.take(list@.len() as int) =~= esv);
        assert(out@ =~= old(out)@ + contributes_json(esv));
    }
}

impl Package {
    /// Converts the package manifest to a pretty-printed JSON string.
    #[verifier::rlimit(90)]
    pub fn to_json(&self) -> (r: Result<String, Error>)
        ensures
            r matches Ok(j) && j@ == manifest_json(self@),
    {
        let mut out = String::from_str("{\n  \"name\": ");
        push_quoted(&mut out, self.id.as_str());
        push_labeled(&mut out, ",\n  \"displayName\": ", self.name.as_str());
        push_labeled(&mut out, ",\n  \"description\": ", self.description.as_str());
        push_labeled(&mut out, ",\n  \"version\": ", self.version.as_str());
        out.append(",\n  \"categories\": ");
        push_categories(&mut out, &self.categories);
        proof {
            assert(out@ =~= manifest_head_json(self@));
        }
        let ghost head = out@;
        match &self.icon {
            Some(ic) => {
                push_labeled(&mut out, ",\n  \"icon\": ", ic.as_str());
            },
            None => {},
        }
        match &self.repository {
            Some(r) => {
                push_labeled(&mut out, ",\n  \"repository\": {\n    \"type\": ", r.kind.as_str());
                push_labeled(&mut out, ",\n    \"url\": ", r.url.as_str());
                out.append("\n  }");
            },
            None => {},
        }
        proof {
            assert(out@ =~= head + manifest_opt_json(self@));
        }
        let ghost head_opt = out@;
        push_labeled(&mut out, ",\n  \"engines\": {\n    \"vscode\": ", self.engines.vscode.as_str());
        out.append("\n  },\n  \"contributes\": {\n    \"snippets\": ");
        push_contributes(&mut out, &self.contributes.snippets);
        out.append("\n  }\n}");
        proof {
            assert(out@ =~= head_opt + manifest_tail_json(self@));
            assert(out@ =~= manifest_json(self@));
        }
        Ok(out)
    }
}

/// The documentation sections of the groups, in order, each introduced by
/// a blank line.
pub open spec fn doc_blocks(gs: Seq<SnippetsView>) -> Seq<char>
    decreases gs.len(),
{
    if gs.len() == 0 {
        Seq::empty()
    } else {
        doc_blocks(gs.drop_last()) + "\n\n"@ + doc_text(gs.last().documentation)
    }
}

/// The README text of the package: the two-line header, then each group's
/// documentation table.
pub open spec fn readme_text(p: PackageView) -> Seq<char> {
    readme_header(p.name, p.description) + doc_blocks(
        match p.groups {
            Some(gs) => gs,
            None => Seq::empty(),
        },
    )
}

/// The files of the package, path and content, in write order: the
/// manifest, one snippets file per group, the README and the LICENSE.
pub open spec fn package_files(p: PackageView) -> Seq<(Seq<char>, Seq<char>)> {
    let gs = (match p.groups {
        Some(gs) => gs,
        None => Seq::empty(),
    });
    seq![("package.json"@, manifest_json(p))] + Seq::new(
        gs.len(),
        |i: int| ("snippets/"@ + gs[i].file_name, group_json(gs[i])),
    ) + seq![("README.md"@, readme_text(p)), ("LICENSE.md"@, p.license)]
}

impl Package {
    /// Renders every file of the package, path and content, in write
    /// order; writing them below a root directory yields the package.
    #[verifier::rlimit(90)]
    pub fn render_files(&self) -> (r: Vec<(String, String)>)
        requires
            self@.wf(),
        ensures
            r.deep_view() == package_files(self@),
    {
        let ghost gsv = (match self@.groups {
            Some(gs) => gs,
            None => Seq::<SnippetsView>::empty(),
        });
        let ghost group_files = Seq::new(
            gsv.len(),
            |i: int| ("snippets/"@ + gsv[i].file_name, group_json(gsv[i])),
        );
        let mut files: Vec<(String, String)> = Vec::new();
        let manifest = match self.to_json() {
            Ok(j) => j,
            Err(_) => vstd::pervasive::unreached(),
        };
        files.push((String::from_str("package.json"), manifest));
        let ghost base = seq![("package.json"@, manifest_json(self@))];
        proof {
            assert(files.deep_view() =~= base + group_files.take(0));
        }
        let mut readme = Readme::new(self.name.as_str(), self.description.as_str());
        let groups = match &self.snippets {
            Some(gs) => gs,
            None => vstd::pervasive::unreached(),
        };
        let mut i: usize = 0;
        proof {
            assert(gsv.take(0) =~= Seq::<SnippetsView>::empty());
            assert(readme.value@ =~= readme_header(self@.name, self@.description) + doc_blocks(
                gsv.take(0),
            ));
        }
        while i < groups.len()
            invariant
                i <= groups@.len(),
                gsv == (match self@.groups {
                    Some(gs) => gs,
                    None => Seq::<SnippetsView>::empty(),
                }),
                gsv.len() == groups@.len(),
                forall|j: int| 0 <= j < gsv.len() ==> gsv[j] == groups@[j]@,
                group_files == Seq::new(
                    gsv.len(),
                    |j: int| ("snippets/"@ + gsv[j].file_name, group_json(gsv[j])),
                ),
                base == seq![("package.json"@, manifest_json(self@))],
                files.deep_view() == base + group_files.take(i as int),
                readme.value@ == readme_header(self@.name, self@.description) + doc_blocks(
                    gsv.take(i as int),
                ),
            decreases groups@.len() - i,
        {
            let g = &groups[i];
            let json = match g.to_json() {
                Ok(j) => j,
                Err(_) => vstd::pervasive::unreached(),
            };
            let mut path = String::from_str("snippets/");
            path.append(g.file_name().as_str());
            let ghost before_files = files.deep_view();
            files.push((path, json));
            let doc = g.documentation().to_string();
            readme.add_line(doc.as_str());
            proof {
                assert(files.deep_view() =~= before_files.push(
                    ("snippets/"@ + gsv[i as int].file_name, group_json(gsv[i as int])),
                ));
                assert(group_files.take(i as int + 1).drop_last() =~= group_files.take(i as int));
                assert(group_files.take(i as int + 1).last() == group_files[i as int]);
                assert(files.deep_view() =~= base + group_files.take(i as int + 1));
                assert(gsv.take(i as int + 1).drop_last() =~= gsv.take(i as int));
                assert(gsv.take(i as int + 1).last() == gsv[i as int]);
                assert(readme.value@ =~= readme_header(self@.name, self@.description) + doc_blocks(
                    gsv.take(i as int + 1),
                ));
            }
            i = i + 1;
        }
        proof {
            assert(gsv.take(groups@.len() as int) =~= gsv);
            assert(group_files.take(groups@.len() as int) =~= group_files);
        }
        let ghost with_groups = files.deep_view();
        files.push((String::from_str("README.md"), readme.value));
        let license_text = self.license.text().to_owned();
        let ghost with_readme = files.deep_view();
        files.push((String::from_str("LICENSE.md"), license_text));
        proof {
            assert(with_readme =~= with_groups.push(("README.md"@, readme_text(self@))));
            assert(files.deep_view() =~= with_readme.push(("LICENSE.md"@, self@.license)));
            assert(files.deep_view() =~= package_files(self@));
        }
        files
    }
}

/// Consistency: a well-formed package with k groups declares exactly k
/// snippet contributions, and each entry carries the matching group's
/// language together with the path under which that group's file is
/// actually written.
pub proof fn lemma_contributes_consistency(p: PackageView)
    requires
        p.wf(),
        p.groups is Some,
    ensures
        p.contributes.len() == p.groups.unwrap().len(),
        package_files(p).len() == p.groups.unwrap().len() + 3,
        forall|i: int|
            0 <= i < p.contributes.len() ==> #[trigger] p.contributes[i] == (
                p.groups.unwrap()[i].language,
                package_files(p)[1 + i].0,
            ),
{
    let gs = p.groups.unwrap();
    let group_files = Seq::new(
        gs.len(),
        |i: int| ("snippets/"@ + gs[i].file_name, group_json(gs[i])),
    );
    assert forall|i: int| 0 <= i < p.contributes.len() implies #[trigger] p.contributes[i] == (
        gs[i].language,
        package_files(p)[1 + i].0,
    ) by {
        assert(package_files(p)[1 + i] == group_files[i]);
    }
}

} // verus!
