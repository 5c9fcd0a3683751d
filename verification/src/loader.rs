//! The input layer's logic: given a directory listing (read by the caller),
//! keep the declaration files, order them by path, and apply profile
//! preprocessing. The strict main directory must exist and hold at least one
//! declaration file; the optional test-only directory may be absent or empty.

use vstd::prelude::*;

use core::cmp::Ordering;
use crate::key::spec_chars_cmp;
use crate::key::str_cmp;
use crate::profile::preprocess_xml;
use crate::profile::spec_preprocess;
use crate::text::str_eq;

verus! {

/// What the build works from: the resource directory, an optional test-only
/// directory, and the active profile.
#[derive(Debug, Clone)]
pub struct BuildPlan {
    /// Root directory that holds the declaration files.
    pub resources_dir: String,
    /// Optional directory of test-only declarations.
    pub tests_resources_dir: Option<String>,
    /// The active build profile, captured for preprocessing.
    pub profile: String,
}

impl BuildPlan {
    /// Assembles a plan.
    pub fn new(resources_dir: &str, tests_resources_dir: Option<String>, profile: &str) -> (r:
        BuildPlan)
        ensures
            r.resources_dir@ == resources_dir@,
            r.profile@ == profile@,
            match (&r.tests_resources_dir, tests_resources_dir) {
                (Some(a), Some(b)) => a@ == b@,
                (None, None) => true,
                _ => false,
            },
    {
        BuildPlan {
            resources_dir: resources_dir.to_owned(),
            tests_resources_dir,
            profile: profile.to_owned(),
        }
    }
}

/// One declaration file, loaded and preprocessed for the selected profile.
#[derive(Debug, Clone)]
pub struct RawResourceFile {
    pub path: String,
    pub contents: String,
    pub is_test: bool,
}

/// Ghost view of a raw file.
pub struct RawResourceFileView {
    pub path: Seq<char>,
    pub contents: Seq<char>,
    pub is_test: bool,
}

impl View for RawResourceFile {
    type V = RawResourceFileView;

    open spec fn view(&self) -> RawResourceFileView {
        RawResourceFileView { path: self.path@, contents: self.contents@, is_test: self.is_test }
    }
}

impl RawResourceFile {
    /// Bundles a file's text with its origin.
    pub fn new(path: &str, contents: String, is_test: bool) -> (r: RawResourceFile)
        ensures
            r@ == (RawResourceFileView { path: path@, contents: contents@, is_test }),
    {
        RawResourceFile { path: path.to_owned(), contents, is_test }
    }
}

/// Why loading failed.
#[derive(Debug)]
pub enum LoaderError {
    /// The strict resource root does not exist.
    MissingDirectory(String),
    /// A file could not be read; carried through from the caller's reading.
    Io { path: String, message: String },
    /// The strict resource root holds no declaration file.
    NoXmlFilesFound { searched: String },
}

/// Whether a path names a declaration file: it ends in `.xml`.
pub open spec fn spec_is_xml_path(p: Seq<char>) -> bool {
    p.len() >= 4 && p.subrange(p.len() - 4, p.len() as int) == ".xml"@
}

/// Tests whether a path names a declaration file.
pub fn is_xml_path(p: &str) -> (r: bool)
    ensures
        r == spec_is_xml_path(p@),
{
    let chars = crate::text::str_to_chars(p);
    let n = chars.len();
    if n < 4 {
        return false;
    }
    let tail = crate::text::subrange_chars(&chars, n - 4, n);
    let ts = crate::text::chars_to_string(&tail);
    str_eq(ts.as_str(), ".xml")
}

/// Insertion of one entry into a path-sorted listing: strictly smaller paths
/// stay in front, equal paths keep their earlier entries in front.
pub open spec fn spec_insert_by_path(
    sorted: Seq<(Seq<char>, Seq<char>)>,
    x: (Seq<char>, Seq<char>),
) -> Seq<(Seq<char>, Seq<char>)>
    decreases sorted.len(),
{
    if sorted.len() == 0 {
        seq![x]
    } else if spec_chars_cmp(x.0, sorted[0].0) == Ordering::Less {
        seq![x] + sorted
    } else {
        seq![sorted[0]] + spec_insert_by_path(sorted.drop_first(), x)
    }
}

/// A listing sorted by path with insertion sort.
pub open spec fn spec_sort_by_path(l: Seq<(Seq<char>, Seq<char>)>) -> Seq<(Seq<char>, Seq<char>)>
    decreases l.len(),
{
    if l.len() == 0 {
        Seq::empty()
    } else {
        spec_insert_by_path(spec_sort_by_path(l.drop_last()), l.last())
    }
}

/// Filtering a listing extended by one entry keeps the entry exactly when it
/// is a declaration file.
proof fn lemma_filter_push_entry(s: Seq<(Seq<char>, Seq<char>)>, x: (Seq<char>, Seq<char>))
    ensures
        s.push(x).filter(|e: (Seq<char>, Seq<char>)| spec_is_xml_path(e.0)) == (
        if spec_is_xml_path(x.0) {
            s.filter(|e: (Seq<char>, Seq<char>)| spec_is_xml_path(e.0)).push(x)
        } else {
            s.filter(|e: (Seq<char>, Seq<char>)| spec_is_xml_path(e.0))
        }),
{
    reveal_with_fuel(Seq::filter, 2);
    assert(s.push(x).drop_last() =~= s);
    assert(s.push(x).last() == x);
}

/// The view of a listing.
pub open spec fn spec_listing_view(l: Seq<(String, String)>) -> Seq<(Seq<char>, Seq<char>)> {
    l.map_values(|e: (String, String)| (e.0@, e.1@))
}

/// Inserts one entry into a path-sorted listing.
fn insert_by_path(sorted: &mut Vec<(String, String)>, x: (String, String))
    ensures
        spec_listing_view(final(sorted)@) == spec_insert_by_path(
            spec_listing_view(old(sorted)@),
            (x.0@, x.1@),
        ),
    decreases old(sorted)@.len(),
{
    let ghost sv = spec_listing_view(sorted@);
    if sorted.len() == 0 {
        sorted.push(x);
        proof {
            assert(spec_listing_view(sorted@) =~= seq![(x.0@, x.1@)]);
        }
        return;
    }
    let c = str_cmp(x.0.as_str(), sorted[0].0.as_str());
    proof {
        assert(sv[0] == (sorted@[0].0@, sorted@[0].1@));
    }
    match c {
        Ordering::Less => {
            sorted.insert(0, x);
            proof {
                assert(spec_listing_view(sorted@) =~= seq![
                    (sorted@[0].0@, sorted@[0].1@),
                ] + sv);
            }
        },
        _ => {
            let head = sorted.remove(0);
            let ghost restv = spec_listing_view(sorted@);
            proof {
                assert(restv =~= sv.drop_first());
            }
            insert_by_path(sorted, x);
            sorted.insert(0, head);
            proof {
                assert(spec_listing_view(sorted@) =~= seq![(head.0@, head.1@)]
                    + spec_insert_by_path(restv, (x.0@, x.1@)));
            }
        },
    }
}

/// Sorts a listing by path, keeping equal paths in their given order.
pub fn sort_by_path(l: Vec<(String, String)>) -> (r: Vec<(String, String)>)
    ensures
        spec_listing_view(r@) == spec_sort_by_path(spec_listing_view(l@)),
{
    let ghost lv = spec_listing_view(l@);
    let n = l.len();
    let mut out: Vec<(String, String)> = Vec::new();
    let mut i: usize = 0;
    while i < n
        invariant
            n == l@.len(),
            lv == spec_listing_view(l@),
            i <= n,
            spec_listing_view(out@) == spec_sort_by_path(lv.take(i as int)),
        decreases n - i,
    {
        let x = (l[i].0.clone(), l[i].1.clone());
        proof {
            assert((x.0@, x.1@) == lv[i as int]);
        }
        insert_by_path(&mut out, x);
        i = i + 1;
        proof {
            assert(lv.take(i as int).drop_last() =~= lv.take(i - 1));
            assert(lv.take(i as int).last() == lv[i - 1]);
        }
    }
    proof {
        assert(lv.take(n as int) =~= lv);
    }
    out
}

/// The declaration files of one directory listing, in path order, with
/// profile preprocessing applied.
pub open spec fn spec_load_listing(
    listing: Seq<(Seq<char>, Seq<char>)>,
    is_test: bool,
    profile: Seq<char>,
) -> Seq<RawResourceFileView> {
    spec_sort_by_path(listing.filter(|e: (Seq<char>, Seq<char>)| spec_is_xml_path(e.0)))
        .map_values(
        |e: (Seq<char>, Seq<char>)|
            RawResourceFileView {
                path: e.0,
                contents: spec_preprocess(e.1, profile),
                is_test,
            },
    )
}

/// Filters, orders and preprocesses one directory's listing.
fn load_listing(listing: &Vec<(String, String)>, is_test: bool, profile: &str) -> (r: Vec<
    RawResourceFile,
>)
    ensures
        r@.map_values(|f: RawResourceFile| f@) == spec_load_listing(
            spec_listing_view(listing@),
            is_test,
            profile@,
        ),
{
    let ghost lv = spec_listing_view(listing@);
    let n = listing.len();
    let mut kept: Vec<(String, String)> = Vec::new();
    let mut i: usize = 0;
    while i < n
        invariant
            n == listing@.len(),
            lv == spec_listing_view(listing@),
            i <= n,
            spec_listing_view(kept@) == lv.take(i as int).filter(
                |e: (Seq<char>, Seq<char>)| spec_is_xml_path(e.0),
            ),
        decreases n - i,
    {
        let x = (listing[i].0.clone(), listing[i].1.clone());
        proof {
            assert((x.0@, x.1@) == lv[i as int]);
            assert(lv.take(i + 1) =~= lv.take(i as int).push(lv[i as int]));
            lemma_filter_push_entry(lv.take(i as int), lv[i as int]);
        }
        let ghost kprev = spec_listing_view(kept@);
        if is_xml_path(x.0.as_str()) {
            kept.push(x);
            proof {
                assert(spec_listing_view(kept@) =~= kprev.push(lv[i as int]));
            }
        }
        i = i + 1;
    }
    proof {
        assert(lv.take(n as int) =~= lv);
    }
    let sorted = sort_by_path(kept);
    let ghost sv = spec_listing_view(sorted@);
    let m = sorted.len();
    let mut out: Vec<RawResourceFile> = Vec::new();
    let mut j: usize = 0;
    while j < m
        invariant
            m == sorted@.len(),
            sv == spec_listing_view(sorted@),
            j <= m,
            out@.map_values(|f: RawResourceFile| f@) == sv.take(j as int).map_values(
                |e: (Seq<char>, Seq<char>)|
                    RawResourceFileView {
                        path: e.0,
                        contents: spec_preprocess(e.1, profile@),
                        is_test,
                    },
            ),
        decreases m - j,
    {
        let filtered = preprocess_xml(sorted[j].1.as_str(), profile);
        let f = RawResourceFile { path: sorted[j].0.clone(), contents: filtered, is_test };
        let ghost oprev = out@;
        out.push(f);
        j = j + 1;
        proof {
            let g = |f: RawResourceFile| f@;
            assert(out@.map_values(g) =~= oprev.map_values(g).push(out@.last()@));
            assert(sv[j - 1] == (sorted@[j - 1].0@, sorted@[j - 1].1@));
            assert(sv.take(j as int) =~= sv.take(j - 1).push(sv[j - 1]));
            assert(sv.take(j - 1).push(sv[j - 1]).map_values(
                |e: (Seq<char>, Seq<char>)|
                    RawResourceFileView {
                        path: e.0,
                        contents: spec_preprocess(e.1, profile@),
                        is_test,
                    },
            ) =~= sv.take(j - 1).map_values(
                |e: (Seq<char>, Seq<char>)|
                    RawResourceFileView {
                        path: e.0,
                        contents: spec_preprocess(e.1, profile@),
                        is_test,
                    },
            ).push(
                RawResourceFileView {
                    path: sv[j - 1].0,
                    contents: spec_preprocess(sv[j - 1].1, profile@),
                    is_test,
                },
            ));
            assert(out@.map_values(|f: RawResourceFile| f@) =~= sv.take(j as int).map_values(
                |e: (Seq<char>, Seq<char>)|
                    RawResourceFileView {
                        path: e.0,
                        contents: spec_preprocess(e.1, profile@),
                        is_test,
                    },
            ));
        }
    }
    proof {
        assert(sv.take(m as int) =~= sv);
    }
    out
}

/// Ghost view of a loader error.
pub enum LoaderErrorView {
    MissingDirectory(Seq<char>),
    Io { path: Seq<char>, message: Seq<char> },
    NoXmlFilesFound { searched: Seq<char> },
}

impl View for LoaderError {
    type V = LoaderErrorView;

    open spec fn view(&self) -> LoaderErrorView {
        match self {
            LoaderError::MissingDirectory(d) => LoaderErrorView::MissingDirectory(d@),
            LoaderError::Io { path, message } => LoaderErrorView::Io {
                path: path@,
                message: message@,
            },
            LoaderError::NoXmlFilesFound { searched } => LoaderErrorView::NoXmlFilesFound {
                searched: searched@,
            },
        }
    }
}

/// The loader's outcome on the two directory listings (`None` stands for an
/// absent directory): the strict main directory must exist and hold at least
/// one declaration file; the test directory is optional.
pub open spec fn spec_load_resources(
    plan_dir: Seq<char>,
    profile: Seq<char>,
    main_listing: Option<Seq<(Seq<char>, Seq<char>)>>,
    tests_listing: Option<Seq<(Seq<char>, Seq<char>)>>,
) -> Result<Seq<RawResourceFileView>, LoaderErrorView> {
    match main_listing {
        None => Err(LoaderErrorView::MissingDirectory(plan_dir)),
        Some(main) => {
            let files = spec_load_listing(main, false, profile);
            if files.len() == 0 {
                Err(LoaderErrorView::NoXmlFilesFound { searched: plan_dir })
            } else {
                match tests_listing {
                    Some(tests) => Ok(files + spec_load_listing(tests, true, profile)),
                    None => Ok(files),
                }
            }
        },
    }
}

/// Loads every declaration file named by the plan from the given directory
/// listings, applying profile preprocessing: the main directory is strict
/// (it must exist and hold at least one declaration file), the test-only
/// directory is not.
pub fn load_resources(
    plan: &BuildPlan,
    main_listing: Option<Vec<(String, String)>>,
    tests_listing: Option<Vec<(String, String)>>,
) -> (r: Result<Vec<RawResourceFile>, LoaderError>)
    ensures
        ({
            let m = spec_load_resources(
                plan.resources_dir@,
                plan.profile@,
                match &main_listing {
                    Some(l) => Some(spec_listing_view(l@)),
                    None => None,
                },
                match &tests_listing {
                    Some(l) => Some(spec_listing_view(l@)),
                    None => None,
                },
            );
            match r {
                Ok(files) => m matches Ok(fs) && files@.map_values(|f: RawResourceFile| f@)
                    == fs,
                Err(e) => m == Err::<Seq<RawResourceFileView>, LoaderErrorView>(e@),
            }
        }),
{
    let main = match main_listing {
        Some(l) => l,
        None => {
            return Err(LoaderError::MissingDirectory(plan.resources_dir.clone()));
        },
    };
    let mut files = load_listing(&main, false, plan.profile.as_str());
    if files.len() == 0 {
        return Err(LoaderError::NoXmlFilesFound { searched: plan.resources_dir.clone() });
    }
    match tests_listing {
        Some(tests) => {
            let ghost base = files@.map_values(|f: RawResourceFile| f@);
            let test_files = load_listing(&tests, true, plan.profile.as_str());
            let ghost extra = test_files@.map_values(|f: RawResourceFile| f@);
            let m = test_files.len();
            let mut i: usize = 0;
            while i < m
                invariant
                    m == test_files@.len(),
                    extra == test_files@.map_values(|f: RawResourceFile| f@),
                    i <= m,
                    files@.map_values(|f: RawResourceFile| f@) == base + extra.take(i as int),
                decreases m - i,
            {
                let x = RawResourceFile {
                    path: test_files[i].path.clone(),
                    contents: test_files[i].contents.clone(),
                    is_test: test_files[i].is_test,
                };
                proof {
                    assert(x@ == extra[i as int]);
                }
                let ghost fprev = files@;
                files.push(x);
                i = i + 1;
                proof {
                    assert(extra.take(i as int) =~= extra.take(i - 1).push(extra[i - 1]));
                    assert(files@.map_values(|f: RawResourceFile| f@) =~= fprev.map_values(
                        |f: RawResourceFile| f@,
                    ).push(extra[i - 1]));
                    assert(fprev.map_values(|f: RawResourceFile| f@).push(extra[i - 1]) =~= base
                        + extra.take(i as int));
                }
            }
            proof {
                assert(extra.take(m as int) =~= extra);
            }
            Ok(files)
        },
        None => Ok(files),
    }
}

} // verus!
