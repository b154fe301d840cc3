//! Session-local opaque handles: a client sees `bug-N` and `project-N`
//! instead of the references they stand for.
use crate::text::{
    chars_eq, chars_of, dec, digit_value, digits_value, is_canonical_decimal, is_digit,
    lemma_canonical_is_dec, lemma_dec_canonical, lemma_dec_injective, lemma_digits_value_monotone,
    push_chars, push_decimal, string_of, sub_chars,
};
use vstd::prelude::*;

verus! {

/// What a handle stands for.
#[derive(Clone, Copy, Debug, PartialEq, Eq, Structural, Hash)]
pub enum HandleKind {
    Bug,
    Project,
}

/// What a handle store holds: the references of each kind, in the order
/// they were first remembered; the `i`-th of a kind has handle number
/// `i + 1`.
pub struct HandleStoreModel {
    pub bugs: Seq<Seq<char>>,
    pub projects: Seq<Seq<char>>,
}

/// No reference occurs twice.
pub open spec fn no_duplicates(refs: Seq<Seq<char>>) -> bool {
    forall|i: int, j: int| 0 <= i < j < refs.len() ==> refs[i] != refs[j]
}

/// A store remembers each reference of a kind once.
pub open spec fn store_wf(m: HandleStoreModel) -> bool {
    no_duplicates(m.bugs) && no_duplicates(m.projects)
}

/// The references of one kind.
pub open spec fn refs_of(m: HandleStoreModel, kind: HandleKind) -> Seq<Seq<char>> {
    match kind {
        HandleKind::Bug => m.bugs,
        HandleKind::Project => m.projects,
    }
}

/// The store with other references of one kind.
pub open spec fn with_refs(m: HandleStoreModel, kind: HandleKind, refs: Seq<Seq<char>>) -> HandleStoreModel {
    match kind {
        HandleKind::Bug => HandleStoreModel { bugs: refs, ..m },
        HandleKind::Project => HandleStoreModel { projects: refs, ..m },
    }
}

/// The prefix of the handles of a kind.
pub open spec fn handle_prefix(kind: HandleKind) -> Seq<char> {
    match kind {
        HandleKind::Bug => seq!['b', 'u', 'g', '-'],
        HandleKind::Project => seq!['p', 'r', 'o', 'j', 'e', 'c', 't', '-'],
    }
}

/// The handle of the `i`-th reference of a kind: its prefix and `i + 1`.
pub open spec fn handle_text(kind: HandleKind, i: nat) -> Seq<char> {
    handle_prefix(kind) + dec(i + 1)
}

/// `r` is remembered under kind `kind`.
pub open spec fn is_remembered(m: HandleStoreModel, kind: HandleKind, r: Seq<char>) -> bool {
    exists|i: int| 0 <= i < refs_of(m, kind).len() && refs_of(m, kind)[i] == r
}

/// What `remember` gives: the store, and the handle of `r`; a reference
/// not seen before is added with the next number of its kind.
pub open spec fn spec_remember(m: HandleStoreModel, kind: HandleKind, r: Seq<char>) -> (
    HandleStoreModel,
    Seq<char>,
) {
    let refs = refs_of(m, kind);
    if is_remembered(m, kind, r) {
        let i = choose|i: int| 0 <= i < refs.len() && refs[i] == r;
        (m, handle_text(kind, i as nat))
    } else {
        (with_refs(m, kind, refs.push(r)), handle_text(kind, refs.len()))
    }
}

/// `h` is the handle of a reference of kind `kind`.
pub open spec fn names_ref(m: HandleStoreModel, kind: HandleKind, h: Seq<char>) -> bool {
    exists|i: nat| i < refs_of(m, kind).len() && #[trigger] handle_text(kind, i) == h
}

/// What `resolve` gives: the reference that `h` stands for among those of
/// kind `kind`, if any.
pub open spec fn spec_resolve(m: HandleStoreModel, kind: HandleKind, h: Seq<char>) -> Option<
    Seq<char>,
> {
    let refs = refs_of(m, kind);
    if names_ref(m, kind, h) {
        Some(refs[(choose|i: nat| i < refs.len() && #[trigger] handle_text(kind, i) == h) as int])
    } else {
        None
    }
}

/// The references behind the handles of one session.
pub struct HandleStore {
    bugs: Vec<String>,
    projects: Vec<String>,
}

impl View for HandleStore {
    type V = HandleStoreModel;

    closed spec fn view(&self) -> HandleStoreModel {
        HandleStoreModel {
            bugs: self.bugs@.map_values(|s: String| s@),
            projects: self.projects@.map_values(|s: String| s@),
        }
    }
}

/// Handles of one kind differ from those of the other, and within a kind
/// different numbers give different handles.
pub proof fn lemma_handle_text_injective(k1: HandleKind, i: nat, k2: HandleKind, j: nat)
    ensures
        handle_text(k1, i) == handle_text(k2, j) ==> k1 == k2 && i == j,
{
    if handle_text(k1, i) == handle_text(k2, j) {
        assert(handle_text(k1, i)[0] == handle_prefix(k1)[0]);
        assert(handle_text(k2, j)[0] == handle_prefix(k2)[0]);
        let p = handle_prefix(k1);
        assert(handle_text(k1, i).skip(p.len() as int) == dec(i + 1));
        assert(handle_text(k2, j).skip(p.len() as int) == dec(j + 1));
        lemma_dec_injective(i + 1, j + 1);
    }
}

fn prefix_chars(kind: HandleKind) -> (r: Vec<char>)
    ensures
        r@ == handle_prefix(kind),
{
    match kind {
        HandleKind::Bug => vec!['b', 'u', 'g', '-'],
        HandleKind::Project => vec!['p', 'r', 'o', 'j', 'e', 'c', 't', '-'],
    }
}

fn handle_for(kind: HandleKind, i: usize) -> (r: String)
    requires
        i < usize::MAX,
    ensures
        r@ == handle_text(kind, i as nat),
{
    let mut out = prefix_chars(kind);
    push_decimal(&mut out, i as u64 + 1);
    string_of(&out)
}

impl HandleStore {
    #[verifier::type_invariant]
    spec fn well_formed(self) -> bool {
        store_wf(self@)
    }

    /// An empty store.
    pub fn new() -> (r: HandleStore)
        ensures
            r@ == (HandleStoreModel { bugs: Seq::empty(), projects: Seq::empty() }),
    {
        let r = HandleStore { bugs: Vec::new(), projects: Vec::new() };
        assert(r@.bugs =~= Seq::<Seq<char>>::empty());
        assert(r@.projects =~= Seq::<Seq<char>>::empty());
        r
    }

    /// The handle of `reference`: the one it already has, or the next of
    /// its kind.
    pub fn remember(&mut self, kind: HandleKind, reference: &str) -> (r: String)
        requires
            is_remembered(old(self)@, kind, reference@) || refs_of(old(self)@, kind).len()
                < usize::MAX,
        ensures
            (final(self)@, r@) == spec_remember(old(self)@, kind, reference@),
    {
        proof {
            use_type_invariant(&*self);
        }
        let ghost m = self@;
        let target = chars_of(reference);
        let found = match kind {
            HandleKind::Bug => find_ref(&self.bugs, &target),
            HandleKind::Project => find_ref(&self.projects, &target),
        };
        match found {
            Some(i) => {
                proof {
                    let refs = refs_of(m, kind);
                    assert(refs[i as int] == reference@);
                    assert(is_remembered(m, kind, reference@));
                    let c = choose|c: int| 0 <= c < refs.len() && refs[c] == reference@;
                    assert(c == i) by {
                        if c < i {
                            assert(refs[c] != refs[i as int]);
                        } else if c > i {
                            assert(refs[i as int] != refs[c]);
                        }
                    }
                }
                handle_for(kind, i)
            },
            None => {
                let n = match kind {
                    HandleKind::Bug => self.bugs.len(),
                    HandleKind::Project => self.projects.len(),
                };
                proof {
                    assert(!is_remembered(m, kind, reference@));
                }
                match kind {
                    HandleKind::Bug => {
                        let mut bugs: Vec<String> = Vec::new();
                        std::mem::swap(&mut bugs, &mut self.bugs);
                        bugs.push(String::from_str(reference));
                        proof {
                            assert(bugs@.map_values(|s: String| s@) =~= m.bugs.push(reference@));
                            lemma_push_fresh(m.bugs, reference@);
                        }
                        self.bugs = bugs;
                        assert(self@.bugs =~= m.bugs.push(reference@));
                        assert(self@.projects == m.projects);
                    },
                    HandleKind::Project => {
                        let mut projects: Vec<String> = Vec::new();
                        std::mem::swap(&mut projects, &mut self.projects);
                        projects.push(String::from_str(reference));
                        proof {
                            assert(projects@.map_values(|s: String| s@) =~= m.projects.push(
                                reference@,
                            ));
                            lemma_push_fresh(m.projects, reference@);
                        }
                        self.projects = projects;
                        assert(self@.projects =~= m.projects.push(reference@));
                        assert(self@.bugs == m.bugs);
                    },
                }
                assert(self@ == with_refs(m, kind, refs_of(m, kind).push(reference@)));
                handle_for(kind, n)
            },
        }
    }

    /// The reference that `handle` stands for, if it is the handle of a
    /// reference of kind `kind` in this store.
    pub fn resolve(&self, kind: HandleKind, handle: &str) -> (r: Option<String>)
        ensures
            match r {
                Some(s) => spec_resolve(self@, kind, handle@) == Some(s@),
                None => spec_resolve(self@, kind, handle@) is None,
            },
    {
        proof {
            use_type_invariant(self);
        }
        let ghost m = self@;
        let refs = match kind {
            HandleKind::Bug => &self.bugs,
            HandleKind::Project => &self.projects,
        };
        assert(refs@.map_values(|s: String| s@) == refs_of(m, kind));
        let ghost witness: Option<nat> = if names_ref(m, kind, handle@) {
            Some(choose|i: nat| i < refs_of(m, kind).len() && #[trigger] handle_text(kind, i) == handle@)
        } else {
            None
        };
        let h = chars_of(handle);
        let prefix = prefix_chars(kind);
        let p = prefix.len();
        proof {
            if let Some(i) = witness {
                lemma_handle_shape(kind, i, h@);
            }
        }
        if h.len() <= p {
            return None;
        }
        let head = sub_chars(&h, 0, p);
        if !chars_eq(&head, &prefix) {
            return None;
        }
        let rest = sub_chars(&h, p, h.len());
        assert(h@ == prefix@ + rest@);
        if rest.len() > 1 && rest[0] == '0' {
            return None;
        }
        let bound: u128 = refs.len() as u128;
        assert(bound <= 0xffff_ffff_ffff_ffff);
        let mut value: u128 = 0;
        let mut j: usize = 0;
        assert(rest@.take(0) == Seq::<char>::empty());
        while j < rest.len()
            invariant
                j <= rest.len(),
                bound == refs_of(m, kind).len(),
                bound <= 0xffff_ffff_ffff_ffff,
                value <= bound,
                m == self@,
                (witness is Some) == names_ref(m, kind, handle@),
                value == digits_value(rest@.take(j as int)),
                forall|k: int| 0 <= k < j ==> is_digit(#[trigger] rest@[k]),
                witness matches Some(i) ==> rest@ == dec(i + 1) && i < bound && is_canonical_decimal(
                    dec(i + 1),
                ) && digits_value(dec(i + 1)) == i + 1,
            decreases rest.len() - j,
        {
            let c = rest[j];
            if !('0' <= c && c <= '9') {
                proof {
                    if let Some(i) = witness {
                        assert(is_digit(rest@[j as int]));
                    }
                }
                return None;
            }
            let d = digit_of(c);
            proof {
                assert(rest@.take(j + 1).drop_last() == rest@.take(j as int));
                assert(rest@.take(j + 1).last() == c);
            }
            value = value * 10 + d as u128;
            if value > bound {
                proof {
                    if let Some(i) = witness {
                        lemma_digits_value_monotone(rest@, j + 1);
                    }
                }
                return None;
            }
            j += 1;
        }
        assert(rest@.take(rest.len() as int) == rest@);
        if value == 0 {
            return None;
        }
        let i = (value - 1) as usize;
        proof {
            assert(is_canonical_decimal(rest@));
            lemma_canonical_is_dec(rest@);
            assert(handle@ == handle_text(kind, i as nat));
            assert(names_ref(m, kind, handle@));
            let c = choose|c: nat| c < refs_of(m, kind).len() && #[trigger] handle_text(kind, c)
                == handle@;
            lemma_handle_text_injective(kind, c, kind, i as nat);
        }
        Some(refs[i].clone())
    }
}

fn digit_of(c: char) -> (d: u8)
    requires
        is_digit(c),
    ensures
        d == digit_value(c),
{
    if c == '0' { 0 } else if c == '1' { 1 } else if c == '2' { 2 } else if c == '3' { 3 }
    else if c == '4' { 4 } else if c == '5' { 5 } else if c == '6' { 6 } else if c == '7' { 7 }
    else if c == '8' { 8 } else { 9 }
}

proof fn lemma_handle_shape(kind: HandleKind, i: nat, h: Seq<char>)
    requires
        h == handle_text(kind, i),
    ensures
        h.len() > handle_prefix(kind).len(),
        h.take(handle_prefix(kind).len() as int) == handle_prefix(kind),
        h.skip(handle_prefix(kind).len() as int) == dec(i + 1),
        is_canonical_decimal(dec(i + 1)),
        digits_value(dec(i + 1)) == i + 1,
        dec(i + 1)[0] != '0',
{
    lemma_dec_canonical(i + 1);
    assert(h.take(handle_prefix(kind).len() as int) == handle_prefix(kind));
    assert(h.skip(handle_prefix(kind).len() as int) == dec(i + 1));
}

proof fn lemma_push_fresh(refs: Seq<Seq<char>>, r: Seq<char>)
    requires
        no_duplicates(refs),
        forall|k: int| 0 <= k < refs.len() ==> refs[k] != r,
    ensures
        no_duplicates(refs.push(r)),
{
    assert forall|i: int, j: int| 0 <= i < j < refs.push(r).len() implies refs.push(r)[i]
        != refs.push(r)[j] by {
        if j == refs.len() {
            assert(refs.push(r)[i] == refs[i]);
        } else {
            assert(refs.push(r)[i] == refs[i] && refs.push(r)[j] == refs[j]);
        }
    }
}

fn find_ref(refs: &Vec<String>, target: &Vec<char>) -> (r: Option<usize>)
    ensures
        match r {
            Some(i) => i < refs.len() && refs@[i as int]@ == target@,
            None => forall|k: int| 0 <= k < refs.len() ==> refs@[k]@ != target@,
        },
{
    let mut i: usize = 0;
    while i < refs.len()
        invariant
            i <= refs.len(),
            forall|k: int| 0 <= k < i ==> refs@[k]@ != target@,
        decreases refs.len() - i,
    {
        if chars_eq(&chars_of(refs[i].as_str()), target) {
            return Some(i);
        }
        i += 1;
    }
    None
}

/// Where `remember` files `r`: its index among the references of its kind
/// in the store it returns.
proof fn lemma_remember_index(m: HandleStoreModel, kind: HandleKind, r: Seq<char>) -> (i: nat)
    requires
        store_wf(m),
    ensures
        store_wf(spec_remember(m, kind, r).0),
        i < refs_of(spec_remember(m, kind, r).0, kind).len(),
        refs_of(spec_remember(m, kind, r).0, kind)[i as int] == r,
        spec_remember(m, kind, r).1 == handle_text(kind, i),
        forall|k: HandleKind| k != kind ==> refs_of(spec_remember(m, kind, r).0, k) == refs_of(m, k),
        refs_of(spec_remember(m, kind, r).0, kind) == refs_of(m, kind) || refs_of(
            spec_remember(m, kind, r).0,
            kind,
        ) == refs_of(m, kind).push(r),
        is_remembered(m, kind, r) ==> spec_remember(m, kind, r).0 == m,
{
    let refs = refs_of(m, kind);
    if is_remembered(m, kind, r) {
        let c = choose|c: int| 0 <= c < refs.len() && refs[c] == r;
        c as nat
    } else {
        lemma_push_fresh(refs, r);
        assert(refs.push(r)[refs.len() as int] == r);
        refs.len()
    }
}

/// The reference behind the `i`-th handle of a kind.
proof fn lemma_resolve_index(m: HandleStoreModel, kind: HandleKind, i: nat)
    requires
        i < refs_of(m, kind).len(),
    ensures
        spec_resolve(m, kind, handle_text(kind, i)) == Some(refs_of(m, kind)[i as int]),
{
    let h = handle_text(kind, i);
    assert(names_ref(m, kind, h));
    let c = choose|c: nat| c < refs_of(m, kind).len() && #[trigger] handle_text(kind, c) == h;
    lemma_handle_text_injective(kind, c, kind, i);
}

/// A handle resolves, under its kind, to the reference it was given for:
/// after `remember(kind, r)` returns `h`, `resolve(kind, h)` gives `r`.
pub proof fn lemma_resolve_after_remember(m: HandleStoreModel, kind: HandleKind, r: Seq<char>)
    requires
        store_wf(m),
    ensures
        store_wf(spec_remember(m, kind, r).0),
        spec_resolve(spec_remember(m, kind, r).0, kind, spec_remember(m, kind, r).1) == Some(r),
{
    let i = lemma_remember_index(m, kind, r);
    lemma_resolve_index(spec_remember(m, kind, r).0, kind, i);
}

/// Remembering a reference again gives the same handle and leaves the
/// store as it was.
pub proof fn lemma_remember_idempotent(m: HandleStoreModel, kind: HandleKind, r: Seq<char>)
    requires
        store_wf(m),
    ensures
        spec_remember(spec_remember(m, kind, r).0, kind, r) == spec_remember(m, kind, r),
{
    let m2 = spec_remember(m, kind, r).0;
    let i = lemma_remember_index(m, kind, r);
    assert(is_remembered(m2, kind, r));
    let refs = refs_of(m2, kind);
    let c = choose|c: int| 0 <= c < refs.len() && refs[c] == r;
    assert(c == i) by {
        if c < i {
            assert(refs[c] != refs[i as int]);
        } else if c > i {
            assert(refs[i as int] != refs[c]);
        }
    }
}

/// Distinct references, or references of distinct kinds, remembered in a
/// store have distinct handles.
pub proof fn lemma_distinct_refs_distinct_handles(
    m: HandleStoreModel,
    k1: HandleKind,
    r1: Seq<char>,
    k2: HandleKind,
    r2: Seq<char>,
)
    requires
        store_wf(m),
        is_remembered(m, k1, r1),
        is_remembered(m, k2, r2),
        k1 != k2 || r1 != r2,
    ensures
        spec_remember(m, k1, r1).1 != spec_remember(m, k2, r2).1,
{
    let i = lemma_remember_index(m, k1, r1);
    let j = lemma_remember_index(m, k2, r2);
    lemma_handle_text_injective(k1, i, k2, j);
}

/// A handle of one kind resolves to nothing under the other kind.
pub proof fn lemma_resolve_other_kind(m: HandleStoreModel, kind: HandleKind, r: Seq<char>, other: HandleKind)
    requires
        store_wf(m),
        other != kind,
    ensures
        spec_resolve(spec_remember(m, kind, r).0, other, spec_remember(m, kind, r).1) is None,
{
    let m2 = spec_remember(m, kind, r).0;
    let h = spec_remember(m, kind, r).1;
    let i = lemma_remember_index(m, kind, r);
    if names_ref(m2, other, h) {
        let c = choose|c: nat| c < refs_of(m2, other).len() && #[trigger] handle_text(other, c) == h;
        lemma_handle_text_injective(other, c, kind, i);
    }
}

/// Remembering never changes what a handle already resolves to.
pub proof fn lemma_remember_keeps_resolutions(
    m: HandleStoreModel,
    kind: HandleKind,
    r: Seq<char>,
    k: HandleKind,
    h: Seq<char>,
)
    requires
        store_wf(m),
        spec_resolve(m, k, h) is Some,
    ensures
        spec_resolve(spec_remember(m, kind, r).0, k, h) == spec_resolve(m, k, h),
{
    let m2 = spec_remember(m, kind, r).0;
    let _ = lemma_remember_index(m, kind, r);
    let j = choose|j: nat| j < refs_of(m, k).len() && #[trigger] handle_text(k, j) == h;
    lemma_resolve_index(m, k, j);
    assert(refs_of(m2, k)[j as int] == refs_of(m, k)[j as int]);
    lemma_resolve_index(m2, k, j);
}

} // verus!
