//! File collections: the files selected from a directory, and lazy,
//! chainable filtered views over them.

use vstd::prelude::*;

use crate::SelectedDirectory;
use crate::config::ConfigFile;
use crate::keepfile::KeepFile;

verus! {

/// A filtering strategy over paths: the configuration filter, or one of the
/// two keep-list reconciliation filters.
#[derive(Debug)]
pub enum Predicate {
    /// Keep the paths the filter configuration matches.
    Config(ConfigFile),
    /// Keep the paths whose base name matches some kept number.
    KeepInclude(KeepFile),
    /// Keep the paths whose base name matches no kept number.
    KeepExclude(KeepFile),
}

impl Predicate {
    /// Whether this predicate accepts a path.
    pub open spec fn accepts_spec(&self, path: Seq<char>) -> bool {
        match self {
            Predicate::Config(c) => c.matches_spec(path),
            Predicate::KeepInclude(k) => k.includes_spec(path),
            Predicate::KeepExclude(k) => k.excludes_spec(path),
        }
    }

    /// The acceptance test, as a spec-level function value.
    pub open spec fn as_spec_fn(self) -> spec_fn(Seq<char>) -> bool {
        |p: Seq<char>| self.accepts_spec(p)
    }

    /// Decide whether the predicate accepts a path.
    pub fn accepts(&self, path: &str) -> (r: bool)
        ensures
            r == self.accepts_spec(path@),
    {
        match self {
            Predicate::Config(c) => c.matches(path),
            Predicate::KeepInclude(k) => k.includes(path),
            Predicate::KeepExclude(k) => k.excludes(path),
        }
    }
}

/// Files selected from a directory.
#[derive(Debug)]
pub struct SelectedFiles {
    /// Directory the files were selected from.
    pub dir: SelectedDirectory,
    /// Selected files' paths.
    pub files: Vec<String>,
}

/// Files filtered by a matcher predicate.
///
/// This struct represents files that have been filtered by a matcher
/// predicate. It is used to chain multiple filters together.
///
/// Files are filtered on demand: the filter is only applied when the files
/// are asked for, and the underlying list is never copied at construction.
#[derive(Debug)]
pub struct FilteredFiles<F: FileSource> {
    /// The wrapped source collection.
    pub source: F,
    /// The filter narrowing it.
    pub matcher: Predicate,
}

/// A source of files rooted at a directory: either the files of a selected
/// directory, or a filtered view of another source.
pub trait FileSource: Sized {
    /// The root directory of this source.
    spec fn dir_spec(&self) -> Seq<char>;

    /// The paths this source yields, in order.
    spec fn files_spec(&self) -> Seq<Seq<char>>;

    /// Get the path of the directory files are located in.
    fn dir(&self) -> (r: &str)
        ensures
            r@ == self.dir_spec();

    /// Get the files in the source, in order.
    fn files(&self) -> (r: Vec<String>)
        ensures
            r.deep_view() == self.files_spec();

    /// Get the number of files in the source.
    ///
    /// This method is linear in time complexity.
    fn count(&self) -> (r: usize)
        ensures
            r == self.files_spec().len();

    /// Filter the files in the source, using the specified filter.
    ///
    /// This method returns a new `FilteredFiles` struct that yields the
    /// files of this source that match the specified filter.
    fn filter_by(self, filter: Predicate) -> (r: FilteredFiles<Self>)
        ensures
            r.source == self,
            r.matcher == filter,
    {
        FilteredFiles { source: self, matcher: filter }
    }
}

impl FileSource for SelectedFiles {
    open spec fn dir_spec(&self) -> Seq<char> {
        self.dir.0@
    }

    open spec fn files_spec(&self) -> Seq<Seq<char>> {
        self.files.deep_view()
    }

    fn dir(&self) -> (r: &str) {
        self.dir.as_str()
    }

    fn files(&self) -> (r: Vec<String>) {
        let n = self.files.len();
        let mut out: Vec<String> = Vec::new();
        let mut i: usize = 0;
        while i < n
            invariant
                i <= n,
                n == self.files@.len(),
                out.deep_view() =~= self.files.deep_view().subrange(0, i as int),
            decreases n - i,
        {
            let ghost prev = out.deep_view();
            out.push(self.files[i].clone());
            assert(out.deep_view() =~= prev.push(self.files@[i as int]@));
            assert(out.deep_view() =~= self.files.deep_view().subrange(
                0,
                i as int + 1,
            ));
            i = i + 1;
        }
        assert(out.deep_view() =~= self.files.deep_view());
        out
    }

    fn count(&self) -> (r: usize) {
        self.files.len()
    }
}

impl<F: FileSource> FileSource for FilteredFiles<F> {
    open spec fn dir_spec(&self) -> Seq<char> {
        self.source.dir_spec()
    }

    open spec fn files_spec(&self) -> Seq<Seq<char>> {
        self.source.files_spec().filter(self.matcher.as_spec_fn())
    }

    fn dir(&self) -> (r: &str) {
        self.source.dir()
    }

    fn files(&self) -> (r: Vec<String>) {
        let ghost pred = self.matcher.as_spec_fn();
        let src = self.source.files();
        let n = src.len();
        let mut out: Vec<String> = Vec::new();
        let mut i: usize = 0;
        proof {
            reveal(Seq::filter);
            assert(self.source.files_spec().subrange(0, 0).filter(pred)
                =~= Seq::<Seq<char>>::empty());
        }
        while i < n
            invariant
                i <= n,
                n == src@.len(),
                src.deep_view() == self.source.files_spec(),
                out.deep_view() == self.source.files_spec().subrange(
                    0,
                    i as int,
                ).filter(pred),
                pred == self.matcher.as_spec_fn(),
            decreases n - i,
        {
            let ghost prev = out.deep_view();
            let ghost done = self.source.files_spec().subrange(0, i as int);
            let ghost t = self.source.files_spec().subrange(0, i as int + 1);
            let ghost p = self.source.files_spec()[i as int];
            proof {
                assert(src@[i as int]@ == p);
                assert(t =~= done.push(p));
                lemma_seq_filter_push(done, p, pred);
            }
            if self.matcher.accepts(src[i].as_str()) {
                out.push(src[i].clone());
                assert(out.deep_view() =~= prev.push(p));
            }
            i = i + 1;
        }
        assert(self.source.files_spec().subrange(0, n as int)
            =~= self.source.files_spec());
        out
    }

    fn count(&self) -> (r: usize) {
        let v = self.files();
        assert(v.deep_view().len() == v@.len());
        v.len()
    }
}

impl<F: FileSource> FilteredFiles<F> {
    /// The wrapped source collection.
    pub fn source(&self) -> (r: &F)
        ensures
            *r == self.source,
    {
        &self.source
    }
}

/// One filtering step over an appended element.
pub proof fn lemma_seq_filter_push<A>(s: Seq<A>, x: A, p: spec_fn(A) -> bool)
    ensures
        s.push(x).filter(p) == if p(x) {
            s.filter(p).push(x)
        } else {
            s.filter(p)
        },
{
    reveal(Seq::filter);
    let t = s.push(x);
    assert(t.drop_last() =~= s);
    assert(t.last() == x);
}

/// Composing two filters over a sequence is one filter by the conjunction.
pub proof fn lemma_seq_filter_compose<A>(
    s: Seq<A>,
    p1: spec_fn(A) -> bool,
    p2: spec_fn(A) -> bool,
    pc: spec_fn(A) -> bool,
)
    requires
        forall|x: A| #[trigger] pc(x) == (p1(x) && p2(x)),
    ensures
        s.filter(p1).filter(p2) == s.filter(pc),
    decreases s.len(),
{
    reveal(Seq::filter);
    if s.len() == 0 {
        assert(s.filter(p1).filter(p2) =~= s.filter(pc));
    } else {
        let d = s.drop_last();
        let l = s.last();
        lemma_seq_filter_compose(d, p1, p2, pc);
        assert(s =~= d.push(l));
        lemma_seq_filter_push(d, l, p1);
        lemma_seq_filter_push(d.filter(p1), l, p2);
        lemma_seq_filter_push(d, l, pc);
    }
}

/// Filter chaining is associative: narrowing a source by predicate `a` and
/// then by predicate `b` yields the same surviving paths, in the same
/// order, as narrowing it once by the conjunction of the two.
pub proof fn lemma_filter_chaining_associative<F: FileSource>(
    source: F,
    a: Predicate,
    b: Predicate,
    pc: spec_fn(Seq<char>) -> bool,
)
    requires
        forall|p: Seq<char>|
            #[trigger] pc(p) == (a.accepts_spec(p) && b.accepts_spec(p)),
    ensures
        (FilteredFiles {
            source: (FilteredFiles { source: source, matcher: a }),
            matcher: b,
        }).files_spec() == source.files_spec().filter(pc),
{
    lemma_seq_filter_compose(
        source.files_spec(),
        a.as_spec_fn(),
        b.as_spec_fn(),
        pc,
    );
}

} // verus!
