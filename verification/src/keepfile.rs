//! The keep list: an ordered list of numeric identifiers parsed from a
//! line-oriented text, and the two opposite-meaning ways of matching a file
//! name against it.

use vstd::prelude::*;

use crate::action::Action;
use crate::file_source::Predicate;
use crate::paths::{
    file_name_spec, keep_line_value, file_name, matches_number_spec,
    matches_number_str, parse_keep_line, split_lines, split_lines_spec,
    valid_keep_line,
};

verus! {

/// Every line of a keep-file text is a valid keep-list line.
pub open spec fn all_lines_valid(lines: Seq<Seq<char>>) -> bool {
    forall|i: int| 0 <= i < lines.len() ==> valid_keep_line(#[trigger] lines[i])
}

/// The invalid lines among `lines`, each with its 0-based index, in order.
pub open spec fn bad_lines_of(lines: Seq<Seq<char>>) -> Seq<(int, Seq<char>)>
    decreases lines.len(),
{
    if lines.len() == 0 {
        seq![]
    } else {
        let rest = bad_lines_of(lines.drop_last());
        if valid_keep_line(lines.last()) {
            rest
        } else {
            rest.push((lines.len() - 1, lines.last()))
        }
    }
}

/// A list of numbers to keep.
///
/// This type represents the identifiers of the files the client wants kept.
#[derive(Debug)]
pub struct KeepFile {
    pub lines: Vec<KeepFileLine>,
}

/// Wrapper around a number to keep.
#[derive(Debug)]
pub struct KeepFileLine(pub u32);

/// Number and content of a line in the keep file that doesn't hold a number.
#[derive(Debug)]
pub struct KeepFileBadLine(pub usize, pub String);

/// List of lines in the keep file that don't hold a number.
#[derive(Debug)]
pub struct KeepFileFormatError(pub Vec<KeepFileBadLine>);

/// Error type for keep-file loading.
#[derive(Debug)]
pub enum KeepFileError {
    /// The keep file contains invalid lines.
    Format { file: String, lines: KeepFileFormatError },
    /// An I/O error occurred while reading the keep file.
    Io(String),
}

impl KeepFile {
    /// The numbers this keep list holds, in order.
    pub open spec fn numbers(&self) -> Seq<u32> {
        self.lines@.map_values(|l: KeepFileLine| l.0)
    }

    /// Parse the text of a keep file: one unsigned integer per line.
    ///
    /// Either every line parses and the whole list is returned, or the
    /// complete batch of offending lines is reported, each with its 1-based
    /// line number and raw text; a partial keep list is never produced.
    pub fn parse(content: &str) -> (r: Result<KeepFile, KeepFileFormatError>)
        ensures
            match r {
                Ok(kf) => all_lines_valid(split_lines_spec(content@))
                    && kf.numbers() == split_lines_spec(content@).map_values(
                        |l: Seq<char>| keep_line_value(l) as u32,
                    ),
                Err(e) => ({
                    let bad = bad_lines_of(split_lines_spec(content@));
                    &&& bad.len() > 0
                    &&& e.0@.len() == bad.len()
                    &&& forall|k: int|
                        0 <= k < bad.len() ==> (#[trigger] e.0@[k]).0 == bad[k].0
                            + 1 && e.0@[k].1@ == bad[k].1
                }),
            },
    {
        let lines = split_lines(content);
        let ghost lseq = split_lines_spec(content@);
        let mut good: Vec<KeepFileLine> = Vec::new();
        let mut bad: Vec<KeepFileBadLine> = Vec::new();
        let mut i: usize = 0;
        while i < lines.len()
            invariant
                i <= lines.len(),
                lines.deep_view() == lseq,
                lseq.len() == lines@.len(),
                good@.map_values(|l: KeepFileLine| l.0)
                    == good_values_prefix(lseq, i as int),
                bad_matches(bad@, bad_lines_of(lseq.subrange(0, i as int))),
            decreases lines.len() - i,
        {
            assert(lseq[i as int] == lines@[i as int]@);
            let ghost prefix = lseq.subrange(0, i as int);
            assert(lseq.subrange(0, i as int + 1).drop_last() =~= prefix);
            assert(lseq.subrange(0, i as int + 1).last() == lseq[i as int]);
            match parse_keep_line(lines[i].as_str()) {
                Some(v) => {
                    good.push(KeepFileLine(v));
                    assert(good@.map_values(|l: KeepFileLine| l.0)
                        =~= good_values_prefix(lseq, i as int).push(v));
                },
                None => {
                    bad.push(KeepFileBadLine(i + 1, lines[i].clone()));
                    assert(bad_lines_of(lseq.subrange(0, i as int + 1))
                        =~= bad_lines_of(prefix).push(
                        (i as int, lseq[i as int])));
                },
            }
            i = i + 1;
        }
        assert(lseq.subrange(0, lseq.len() as int) =~= lseq);
        if bad.len() == 0 {
            proof {
                lemma_bad_lines_iff_valid(lseq);
                lemma_good_values_all_valid(lseq, lseq.len() as int);
            }
            Ok(KeepFile { lines: good })
        } else {
            Err(KeepFileFormatError(bad))
        }
    }

    /// Get an iterator over the list of numbers to keep.
    pub fn iter(&self) -> (r: std::slice::Iter<'_, KeepFileLine>)
        ensures
            vstd::std_specs::slice::into_iter_elts(r) == self.lines@,
    {
        let s = self.lines.as_slice();
        let it = s.iter();
        proof {
            broadcast use vstd::std_specs::slice::axiom_spec_slice_iter;
            assert(vstd::std_specs::slice::into_iter_elts(it)
                =~= self.lines@);
        }
        it
    }

    /// Check if a file name contains a number matching `num`.
    ///
    /// The number of a file name is its last run of digits; a name without
    /// digits matches no number.
    pub fn matches_number(filename: &str, num: u32) -> (r: bool)
        ensures
            r == matches_number_spec(filename@, num),
    {
        matches_number_str(filename, num)
    }

    /// A path is included when its base name matches some kept number.
    pub open spec fn includes_spec(&self, path: Seq<char>) -> bool {
        file_name_spec(path).len() > 0 && exists|i: int|
            0 <= i < self.numbers().len() && matches_number_spec(
                file_name_spec(path),
                #[trigger] self.numbers()[i],
            )
    }

    /// A path is excluded-surviving when its base name matches none of the
    /// kept numbers.
    pub open spec fn excludes_spec(&self, path: Seq<char>) -> bool {
        file_name_spec(path).len() > 0 && forall|i: int|
            0 <= i < self.numbers().len() ==> !matches_number_spec(
                file_name_spec(path),
                #[trigger] self.numbers()[i],
            )
    }

    /// Whether the path's base name matches any kept number.
    pub fn includes(&self, path: &str) -> (r: bool)
        ensures
            r == self.includes_spec(path@),
    {
        let name = match file_name(path) {
            Some(name) => name,
            None => {
                return false;
            },
        };
        let n = self.lines.len();
        let mut i: usize = 0;
        while i < n
            invariant
                i <= n,
                n == self.lines@.len(),
                name@ == file_name_spec(path@),
                forall|k: int| 0 <= k < i ==> !matches_number_spec(
                    file_name_spec(path@),
                    #[trigger] self.numbers()[k],
                ),
            decreases n - i,
        {
            if Self::matches_number(name, self.lines[i].0) {
                assert(self.numbers()[i as int] == self.lines@[i as int].0);
                return true;
            }
            assert(self.numbers()[i as int] == self.lines@[i as int].0);
            i = i + 1;
        }
        false
    }

    /// Convert the keep file into an inclusive filter.
    ///
    /// The filter will allow files that were found in the keep file.
    pub fn into_inclusion_matcher(self) -> (r: Predicate)
        ensures
            r == Predicate::KeepInclude(self),
    {
        Predicate::KeepInclude(self)
    }

    /// Convert the keep file into an exclusive filter.
    ///
    /// The filter will allow files that were **not** found in the keep file.
    pub fn into_exclusion_matcher(self) -> (r: Predicate)
        ensures
            r == Predicate::KeepExclude(self),
    {
        Predicate::KeepExclude(self)
    }

    /// The reconciliation filter an action calls for.
    ///
    /// A delete keeps the files that were *not* requested — they are the
    /// ones to be deleted — while a move or copy keeps exactly the
    /// requested files.
    pub fn into_action_matcher(self, action: &Action) -> (r: Predicate)
        ensures
            *action is Delete ==> r == Predicate::KeepExclude(self),
            !(*action is Delete) ==> r == Predicate::KeepInclude(self),
    {
        match action {
            Action::Delete => Predicate::KeepExclude(self),
            Action::MoveOrCopyTo(_, _) => Predicate::KeepInclude(self),
        }
    }

    /// Whether the path's base name matches none of the kept numbers.
    pub fn excludes(&self, path: &str) -> (r: bool)
        ensures
            r == self.excludes_spec(path@),
    {
        let name = match file_name(path) {
            Some(name) => name,
            None => {
                return false;
            },
        };
        let n = self.lines.len();
        let mut i: usize = 0;
        while i < n
            invariant
                i <= n,
                n == self.lines@.len(),
                name@ == file_name_spec(path@),
                forall|k: int| 0 <= k < i ==> !matches_number_spec(
                    file_name_spec(path@),
                    #[trigger] self.numbers()[k],
                ),
            decreases n - i,
        {
            if Self::matches_number(name, self.lines[i].0) {
                assert(self.numbers()[i as int] == self.lines@[i as int].0);
                return false;
            }
            assert(self.numbers()[i as int] == self.lines@[i as int].0);
            i = i + 1;
        }
        true
    }
}

/// Values of the valid lines among the first `n` lines, in order.
pub open spec fn good_values_prefix(lines: Seq<Seq<char>>, n: int) -> Seq<u32>
    decreases n,
{
    if n <= 0 {
        seq![]
    } else {
        let rest = good_values_prefix(lines, n - 1);
        if valid_keep_line(lines[n - 1]) {
            rest.push(keep_line_value(lines[n - 1]) as u32)
        } else {
            rest
        }
    }
}

/// The reported bad lines agree with the computed ones pointwise.
pub open spec fn bad_matches(
    reported: Seq<KeepFileBadLine>,
    bad: Seq<(int, Seq<char>)>,
) -> bool {
    reported.len() == bad.len() && forall|k: int|
        0 <= k < bad.len() ==> (#[trigger] reported[k]).0 == bad[k].0 + 1
            && reported[k].1@ == bad[k].1
}

/// When every line is valid, the collected values are the per-line values.
pub proof fn lemma_good_values_all_valid(lines: Seq<Seq<char>>, n: int)
    requires
        0 <= n <= lines.len(),
        forall|i: int| 0 <= i < n ==> valid_keep_line(#[trigger] lines[i]),
    ensures
        good_values_prefix(lines, n) == lines.subrange(0, n).map_values(
            |l: Seq<char>| keep_line_value(l) as u32,
        ),
    decreases n,
{
    if n > 0 {
        lemma_good_values_all_valid(lines, n - 1);
        assert(lines.subrange(0, n - 1) =~= lines.subrange(0, n).drop_last());
        assert(good_values_prefix(lines, n) =~= lines.subrange(0, n).map_values(
            |l: Seq<char>| keep_line_value(l) as u32));
    }
}

/// There are no bad lines exactly when every line is valid.
pub proof fn lemma_bad_lines_iff_valid(lines: Seq<Seq<char>>)
    ensures
        bad_lines_of(lines).len() == 0 <==> all_lines_valid(lines),
    decreases lines.len(),
{
    if lines.len() > 0 {
        lemma_bad_lines_iff_valid(lines.drop_last());
        assert(forall|i: int| 0 <= i < lines.len() - 1 ==> lines.drop_last()[i]
            == lines[i]);
    }
}

/// A file name containing no digits matches no number at all.
pub proof fn lemma_no_digits_no_match(name: Seq<char>, num: u32)
    requires
        forall|i: int| 0 <= i < name.len() ==> !crate::paths::is_digit(
            #[trigger] name[i],
        ),
    ensures
        !matches_number_spec(name, num),
{
    crate::paths::lemma_last_digit_index_absent(name);
}

/// A file name whose last digit run denotes `num` matches `num`, and does
/// not match `num + 1`.
pub proof fn lemma_last_run_matches_exactly(name: Seq<char>, num: u32)
    requires
        crate::paths::last_digit_run(name) matches Some(run)
            && crate::paths::digits_val(run) == num as nat,
        num < u32::MAX,
    ensures
        matches_number_spec(name, num),
        !matches_number_spec(name, (num + 1) as u32),
{
}

/// Inclusion and exclusion are logical negations of each other, for every
/// path that has a base name.
pub proof fn lemma_inclusion_exclusion_negation(kf: &KeepFile, path: Seq<char>)
    requires
        file_name_spec(path).len() > 0,
    ensures
        kf.includes_spec(path) == !kf.excludes_spec(path),
{
}

} // verus!
