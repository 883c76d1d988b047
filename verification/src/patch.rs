//! Source patches of a benchmark: named diffs that are applied one after the
//! other, in the order of the number that their file names begin with.

use crate::numeral::{parse_decimal, parse_unsigned};
use crate::text::{
    chars_of, concat3, find, find_char, lemma_find, remove_all, remove_all_chars, string_from,
};
use vstd::prelude::*;
use vstd::std_specs::cmp::PartialEqSpecImpl;

verus! {

/// The name of a patch, as the statistics store knows it.
#[derive(Clone, Debug, PartialEq, Eq)]
pub struct PatchName(pub String);

impl PatchName {
    pub fn as_str(&self) -> (r: &str)
        ensures
            r@ == self.0@,
    {
        self.0.as_str()
    }
}

/// One source patch of a benchmark.
#[derive(Clone, Debug)]
pub struct Patch {
    pub index: usize,
    pub name: PatchName,
    pub path: String,
}

/// Two patches are the same patch if they have the same name: the number is
/// there to order them, not to tell them apart.
impl PartialEq for Patch {
    fn eq(&self, other: &Patch) -> (r: bool) {
        self.name.0 == other.name.0
    }
}

impl PartialEqSpecImpl for Patch {
    open spec fn obeys_eq_spec() -> bool {
        true
    }

    open spec fn eq_spec(&self, other: &Patch) -> bool {
        self.name.0@ == other.name.0@
    }
}

impl Eq for Patch {

}

/// Why a file name is not that of a patch.
#[derive(Clone, Debug, PartialEq, Eq)]
pub enum PatchError {
    /// The file name does not begin with a number. It holds the file name.
    BadIndex(String),
}

/// A text with a space in place of each hyphen.
pub open spec fn hyphens_to_spaces(s: Seq<char>) -> Seq<char> {
    s.map_values(
        |c: char|
            if c == '-' {
                ' '
            } else {
                c
            },
    )
}

/// What stands before the first hyphen of a file name: the whole name where
/// it has none.
pub open spec fn index_text(file_name: Seq<char>) -> Seq<char> {
    file_name.take(find(file_name, '-'))
}

/// What follows the first hyphen of a file name: nothing where it has none.
pub open spec fn name_text(file_name: Seq<char>) -> Seq<char> {
    if find(file_name, '-') < file_name.len() {
        file_name.skip(find(file_name, '-') + 1)
    } else {
        Seq::empty()
    }
}

/// The name of the patch in a file of this name: what follows the first
/// hyphen, with spaces for hyphens and without `.patch`.
pub open spec fn patch_name(file_name: Seq<char>) -> Seq<char> {
    remove_all(hyphens_to_spaces(name_text(file_name)), ".patch"@)
}

/// The number of the patch in a file of this name, where what stands before
/// the first hyphen is a number.
pub open spec fn patch_index(file_name: Seq<char>) -> Option<nat> {
    parse_unsigned(index_text(file_name), usize::MAX as nat)
}

impl Patch {
    pub open spec fn spec_index(&self) -> nat {
        self.index as nat
    }

    pub open spec fn spec_path(&self) -> Seq<char> {
        self.path@
    }

    /// The patch in the file of this name, which has the form
    /// `000-name-of-the-patch.patch`.
    pub fn new(file_name: String) -> (r: Result<Patch, PatchError>)
        ensures
            match r {
                Ok(p) => patch_index(file_name@) == Some(p.spec_index()) && p.name.0@ == patch_name(
                    file_name@,
                ) && p.spec_path() == file_name@,
                Err(PatchError::BadIndex(n)) => patch_index(file_name@).is_none() && n@
                    == file_name@,
            },
    {
        let text = chars_of(file_name.as_str());
        let s: &[char] = text.as_slice();
        let dash: usize = find_char(s, '-');
        proof {
            lemma_find(s@, '-');
        }
        let head: &[char] = &s[0..dash];
        proof {
            assert(head@ == index_text(file_name@));
        }
        let index: usize = match parse_decimal(head, usize::MAX as u64) {
            Some(n) => n as usize,
            None => {
                return Err(PatchError::BadIndex(file_name));
            },
        };
        let mut spaced: Vec<char> = Vec::new();
        if dash < s.len() {
            let mut i: usize = dash + 1;
            while i < s.len()
                invariant
                    dash < i <= s.len(),
                    spaced@ == hyphens_to_spaces(s@.subrange(dash + 1, i as int)),
                decreases s.len() - i,
            {
                let c: char = s[i];
                spaced.push(
                    if c == '-' {
                        ' '
                    } else {
                        c
                    },
                );
                proof {
                    assert(spaced@ =~= hyphens_to_spaces(s@.subrange(dash + 1, i + 1)));
                }
                i += 1;
            }
            proof {
                assert(s@.subrange(dash + 1, s@.len() as int) == s@.skip(dash + 1));
            }
        }
        let ending = chars_of(".patch");
        let name = remove_all_chars(spaced.as_slice(), ending.as_slice());
        Ok(Patch { index, name: PatchName(string_from(name.as_slice())), path: file_name })
    }

    /// The number that orders the patch among the patches of its benchmark.
    pub fn index(&self) -> (r: usize)
        ensures
            r == self.spec_index(),
    {
        self.index
    }

    /// The name of the file that holds the patch.
    pub fn path(&self) -> (r: &str)
        ensures
            r@ == self.spec_path(),
    {
        self.path.as_str()
    }

    /// The arguments of the `git` invocation that applies the patch in the
    /// directory it is run in.
    pub fn apply(&self) -> (r: Vec<String>)
        ensures
            r@.len() == 2,
            r@[0]@ == "apply"@,
            r@[1]@ == self.spec_path(),
    {
        let mut args: Vec<String> = Vec::new();
        args.push("apply".to_owned());
        args.push(self.path.clone());
        args
    }
}

/// The patches with the number `k`, in their order in the list.
pub open spec fn with_index(ps: Seq<Patch>, k: nat) -> Seq<Patch> {
    ps.filter(|p: Patch| p.spec_index() == k)
}

/// No patch stands before one of a smaller number.
pub open spec fn ordered(ps: Seq<Patch>) -> bool {
    forall|i: int, j: int|
        0 <= i <= j < ps.len() ==> (#[trigger] ps[i]).spec_index() <= (#[trigger] ps[j]).spec_index()
}

/// Orders patches by their numbers. Patches of one number keep the order
/// they came in.
pub fn sort_by_index(patches: Vec<Patch>) -> (r: Vec<Patch>)
    ensures
        ordered(r@),
        r@.len() == patches@.len(),
        forall|k: nat| with_index(r@, k) == with_index(patches@, k),
{
    broadcast use Seq::filter_distributes_over_add;

    let ghost input = patches@;
    let mut rest = patches;
    let mut out: Vec<Patch> = Vec::new();
    let ghost mut done: Seq<Patch> = Seq::empty();
    proof {
        reveal(Seq::filter);
        assert forall|k: nat| with_index(out@, k) == with_index(done, k) by {}
    }
    while rest.len() > 0
        invariant
            done + rest@ == input,
            ordered(out@),
            out@.len() == done.len(),
            forall|k: nat| with_index(out@, k) == with_index(done, k),
        decreases rest@.len(),
    {
        let ghost rest0 = rest@;
        let x = rest.remove(0);
        let mut pos: usize = out.len();
        while pos > 0 && out[pos - 1].index > x.index
            invariant
                pos <= out@.len(),
                forall|j: int| pos <= j < out@.len() ==> (#[trigger] out@[j]).spec_index() > x.spec_index(),
            decreases pos,
        {
            pos -= 1;
        }
        let ghost old_out = out@;
        out.insert(pos, x);
        proof {
            let left = old_out.take(pos as int);
            let right = old_out.skip(pos as int);
            assert(old_out == left + right);
            assert(out@ == left + seq![x] + right);
            assert(done.push(x) == done + seq![x]);
            assert(done.push(x) + rest@ == input) by {
                assert(rest0[0] == x);
                assert(done.push(x) + rest@ =~= done + rest0);
            }
            assert forall|k: nat| with_index(out@, k) == with_index(done.push(x), k) by {
                let pred = |p: Patch| p.spec_index() == k;
                lemma_filter_one(x, k);
                assert(with_index(old_out, k) == with_index(done, k));
                assert(old_out.filter(pred) == left.filter(pred) + right.filter(pred));
                if k == x.spec_index() {
                    assert(right.filter(pred) == Seq::<Patch>::empty()) by {
                        lemma_filter_none(right, k);
                    }
                    assert(left.filter(pred) + seq![x] + Seq::<Patch>::empty() == left.filter(pred)
                        + seq![x]);
                    assert(left.filter(pred) + Seq::<Patch>::empty() == left.filter(pred));
                } else {
                    assert(left.filter(pred) + Seq::<Patch>::empty() + right.filter(pred)
                        == left.filter(pred) + right.filter(pred));
                }
            }
            assert(ordered(out@)) by {
                assert forall|i: int, j: int| 0 <= i <= j < out@.len() implies (
                #[trigger] out@[i]).spec_index() <= (#[trigger] out@[j]).spec_index() by {
                    let a = if i < pos { i } else { i - 1 };
                    let b = if j < pos { j } else { j - 1 };
                    if i != pos && j != pos {
                        assert(out@[i] == old_out[a]);
                        assert(out@[j] == old_out[b]);
                    } else if i == pos && j != pos {
                        assert(out@[j] == old_out[b]);
                    } else if i != pos && j == pos {
                        assert(out@[i] == old_out[a]);
                        if pos > 0 {
                            assert(old_out[a].spec_index() <= old_out[pos - 1].spec_index());
                        }
                    }
                }
            }
            done = done.push(x);
        }
    }
    proof {
        assert(done + rest@ == done);
    }
    out
}

/// A list of one patch holds that patch or nothing after filtering.
proof fn lemma_filter_one(x: Patch, k: nat)
    ensures
        with_index(seq![x], k) == if x.spec_index() == k {
            seq![x]
        } else {
            Seq::<Patch>::empty()
        },
{
    reveal_with_fuel(Seq::filter, 2);
    let s = seq![x];
    assert(s.drop_last() =~= Seq::<Patch>::empty());
    assert(s.last() == x);
    assert(Seq::<Patch>::empty().push(x) =~= s);
}

/// Where every patch has a greater number than `k`, none has the number `k`.
proof fn lemma_filter_none(ps: Seq<Patch>, k: nat)
    requires
        forall|j: int| 0 <= j < ps.len() ==> (#[trigger] ps[j]).spec_index() > k,
    ensures
        with_index(ps, k) == Seq::<Patch>::empty(),
    decreases ps.len(),
{
    reveal(Seq::filter);
    if ps.len() > 0 {
        lemma_filter_none(ps.drop_last(), k);
        assert(ps.last() == ps[ps.len() - 1]);
    }
}

/// What a `Patch` stands for in contracts.
pub struct PatchView {
    pub index: nat,
    pub name: Seq<char>,
    pub path: Seq<char>,
}

impl View for Patch {
    type V = PatchView;

    open spec fn view(&self) -> PatchView {
        PatchView { index: self.index as nat, name: self.name.0@, path: self.path@ }
    }
}

/// The view of a patch that may be missing.
pub open spec fn patch_of(p: Option<Patch>) -> Option<PatchView> {
    match p {
        Some(p) => Some(p@),
        None => None,
    }
}

impl Patch {
    /// A copy of the patch.
    pub fn duplicate(&self) -> (r: Patch)
        ensures
            r@ == self@,
    {
        Patch { index: self.index, name: PatchName(self.name.0.clone()), path: self.path.clone() }
    }
}

impl PatchError {
    /// The error in words.
    pub open spec fn spec_message(self) -> Seq<char> {
        match self {
            PatchError::BadIndex(n) => "`"@ + n@
                + "` should be in the format 000-name.patch, but did not start with a number"@,
        }
    }

    pub fn message(&self) -> (r: String)
        ensures
            r@ == self.spec_message(),
    {
        match self {
            PatchError::BadIndex(n) => concat3(
                "`",
                n.as_str(),
                "` should be in the format 000-name.patch, but did not start with a number",
            ),
        }
    }
}

impl std::hash::Hash for Patch {
    /// Calls `Hash::hash` on the name of the patch and on nothing else, so
    /// that patches that are equal hash alike. Nothing is claimed of what
    /// the hasher makes of it.
    #[verifier::external_body]
    fn hash<H: std::hash::Hasher>(&self, state: &mut H) {
        std::hash::Hash::hash(&self.name.0, state)
    }
}

} // verus!
