//! Property tables and `${key}` placeholder expansion.
//!
//! A metadata document carries a table of named properties; any string value
//! in the document may reference them as `${key}`. Expansion replaces every
//! reference whose key is present, repeatedly (substituted text may itself
//! contain references) until a full pass changes nothing. A property that
//! expands to a reference to itself would never reach that fixed point, so
//! expansion is bounded by a fixed pass count.

use vstd::prelude::*;

use crate::text::{append_chars, append_str_chars, chars_eq, chars_to_string, str_to_chars};

verus! {

/// The greatest number of full substitution passes one expansion makes.
pub const MAX_EXPANSION_PASSES: usize = 16;

/// An ordered table of named string properties with unique keys, keeping
/// insertion order; inserting an existing key replaces its value in place.
pub struct Properties {
    pub entries: Vec<(String, String)>,
}

impl View for Properties {
    type V = Seq<(Seq<char>, Seq<char>)>;

    open spec fn view(&self) -> Seq<(Seq<char>, Seq<char>)> {
        self.entries@.map_values(|p: (String, String)| (p.0@, p.1@))
    }
}

/// The value bound to `key`: the value of the first entry whose key matches.
pub open spec fn spec_lookup(entries: Seq<(Seq<char>, Seq<char>)>, key: Seq<char>) -> Option<
    Seq<char>,
>
    decreases entries.len(),
{
    if entries.len() == 0 {
        None
    } else if entries[0].0 == key {
        Some(entries[0].1)
    } else {
        spec_lookup(entries.drop_first(), key)
    }
}

/// The table after binding `key` to `value`: the first entry with that key
/// is replaced, or a new entry is appended when the key is absent.
pub open spec fn spec_insert(
    entries: Seq<(Seq<char>, Seq<char>)>,
    key: Seq<char>,
    value: Seq<char>,
) -> Seq<(Seq<char>, Seq<char>)>
    decreases entries.len(),
{
    if entries.len() == 0 {
        seq![(key, value)]
    } else if entries[0].0 == key {
        seq![(key, value)] + entries.drop_first()
    } else {
        seq![entries[0]] + spec_insert(entries.drop_first(), key, value)
    }
}

/// No two entries bind the same key.
pub open spec fn unique_keys(entries: Seq<(Seq<char>, Seq<char>)>) -> bool {
    forall|i: int, j: int| 0 <= i < j < entries.len() ==> entries[i].0 != entries[j].0
}

impl Properties {
    /// Whether the table is well formed: every key appears at most once.
    pub open spec fn wf(&self) -> bool {
        unique_keys(self@)
    }

    /// An empty property table.
    pub fn new() -> (r: Properties)
        ensures
            r@ == Seq::<(Seq<char>, Seq<char>)>::empty(),
            r.wf(),
    {
        let r = Properties { entries: Vec::new() };
        assert(r@ =~= Seq::<(Seq<char>, Seq<char>)>::empty());
        r
    }

    /// How many properties the table holds.
    pub fn len(&self) -> (r: usize)
        ensures
            r == self@.len(),
    {
        self.entries.len()
    }

    /// The value bound to `key`, when one is.
    pub fn get(&self, key: &Vec<char>) -> (r: Option<String>)
        ensures
            match r {
                Some(v) => spec_lookup(self@, key@) == Some(v@),
                None => spec_lookup(self@, key@) == None::<Seq<char>>,
            },
    {
        let n = self.entries.len();
        let mut i: usize = 0;
        assert(self@.skip(0) =~= self@);
        while i < n
            invariant
                n == self@.len(),
                i <= n,
                spec_lookup(self@, key@) == spec_lookup(self@.skip(i as int), key@),
            decreases n - i,
        {
            assert(self@.skip(i as int).drop_first() =~= self@.skip(i + 1));
            assert(self@.skip(i as int)[0] == self@[i as int]);
            let kc = str_to_chars(self.entries[i].0.as_str());
            if chars_eq(&kc, key) {
                return Some(self.entries[i].1.clone());
            }
            i = i + 1;
        }
        assert(self@.skip(n as int) =~= Seq::<(Seq<char>, Seq<char>)>::empty());
        None
    }

    /// Binds `key` to `value`, replacing the value of an existing key.
    pub fn insert(&mut self, key: String, value: String)
        requires
            old(self).wf(),
        ensures
            final(self)@ == spec_insert(old(self)@, key@, value@),
            final(self).wf(),
    {
        let n = self.entries.len();
        let kc = str_to_chars(key.as_str());
        let mut i: usize = 0;
        while i < n
            invariant
                n == self@.len(),
                i <= n,
                self@ == old(self)@,
                old(self).wf(),
                kc@ == key@,
                forall|k: int| 0 <= k < i ==> self@[k].0 != key@,
            decreases n - i,
        {
            let ec = str_to_chars(self.entries[i].0.as_str());
            if chars_eq(&ec, &kc) {
                self.entries.set(i, (key, value));
                proof {
                    lemma_insert_at(old(self)@, kc@, value@, i as int);
                    assert(self@ =~= old(self)@.update(i as int, (kc@, value@)));
                }
                return ;
            }
            i = i + 1;
        }
        self.entries.push((key, value));
        assert(self@ =~= old(self)@ + seq![(kc@, value@)]);
        proof {
            lemma_insert_absent(old(self)@, kc@, value@);
        }
        assert(self.wf()) by {
            assert(forall|k: int| 0 <= k < old(self)@.len() ==> self@[k] == old(self)@[k]);
        }
    }
}

/// When `key` first occurs at position `at`, insertion replaces exactly that
/// entry.
proof fn lemma_insert_at(
    entries: Seq<(Seq<char>, Seq<char>)>,
    key: Seq<char>,
    value: Seq<char>,
    at: int,
)
    requires
        0 <= at < entries.len(),
        entries[at].0 == key,
        forall|k: int| 0 <= k < at ==> entries[k].0 != key,
        unique_keys(entries),
    ensures
        spec_insert(entries, key, value) == entries.update(at, (key, value)),
        unique_keys(entries.update(at, (key, value))),
    decreases entries.len(),
{
    if at == 0 {
        assert(spec_insert(entries, key, value) =~= entries.update(0, (key, value)));
    } else {
        assert(forall|k: int|
            0 <= k < at - 1 ==> entries.drop_first()[k].0 == entries[k + 1].0 && entries[k
                + 1].0 != key);
        lemma_insert_at(entries.drop_first(), key, value, at - 1);
        assert(spec_insert(entries, key, value) =~= entries.update(at, (key, value)));
    }
    assert(unique_keys(entries.update(at, (key, value)))) by {
        assert(forall|k: int|
            0 <= k < entries.len() && k != at ==> entries.update(at, (key, value))[k]
                == entries[k]);
    }
}

/// When `key` is bound by no entry, insertion appends a new entry.
proof fn lemma_insert_absent(entries: Seq<(Seq<char>, Seq<char>)>, key: Seq<char>, value: Seq<char>)
    requires
        forall|k: int| 0 <= k < entries.len() ==> entries[k].0 != key,
    ensures
        spec_insert(entries, key, value) == entries + seq![(key, value)],
    decreases entries.len(),
{
    if entries.len() == 0 {
        assert(spec_insert(entries, key, value) =~= entries + seq![(key, value)]);
    } else {
        assert(forall|k: int|
            0 <= k < entries.drop_first().len() ==> entries.drop_first()[k] == entries[k + 1]);
        lemma_insert_absent(entries.drop_first(), key, value);
        assert(spec_insert(entries, key, value) =~= entries + seq![(key, value)]);
    }
}

/// The literal text of a reference to the property named `k`.
pub open spec fn key_pattern(k: Seq<char>) -> Seq<char> {
    seq!['$', '{'] + k + seq!['}']
}

/// Whether `pat` stands in `s` as the contiguous text starting at `i`.
pub open spec fn occurs_at(s: Seq<char>, i: int, pat: Seq<char>) -> bool {
    0 <= i && i + pat.len() <= s.len() && s.subrange(i, i + pat.len()) == pat
}

/// The first table entry whose reference text `${key}` stands in `s` at
/// position `i`.
pub open spec fn match_at(
    s: Seq<char>,
    i: int,
    props: Seq<(Seq<char>, Seq<char>)>,
) -> Option<(Seq<char>, Seq<char>)>
    decreases props.len(),
{
    if props.len() == 0 {
        None
    } else if occurs_at(s, i, key_pattern(props[0].0)) {
        Some(props[0])
    } else {
        match_at(s, i, props.drop_first())
    }
}

/// One full substitution pass from position `i` on: wherever the reference
/// text `${key}` of a bound key occurs — also inside a larger reference
/// whose own key is unbound — it is replaced by the key\'s value and
/// skipped; every other character is kept. Substituted text is not
/// rescanned within the same pass.
pub open spec fn spec_pass_from(
    s: Seq<char>,
    i: int,
    props: Seq<(Seq<char>, Seq<char>)>,
) -> Seq<char>
    decreases s.len() - i,
{
    if i < 0 || i >= s.len() {
        Seq::empty()
    } else {
        match match_at(s, i, props) {
            Some(kv) => {
                let step = key_pattern(kv.0).len() as int;
                if i + step <= s.len() {
                    kv.1 + spec_pass_from(s, i + step, props)
                } else {
                    kv.1
                }
            },
            None => seq![s[i]] + spec_pass_from(s, i + 1, props),
        }
    }
}

/// One full substitution pass over `s`: every occurrence of a reference to
/// a bound key replaced by that key\'s value.
pub open spec fn spec_pass_once(s: Seq<char>, props: Seq<(Seq<char>, Seq<char>)>) -> Seq<char> {
    spec_pass_from(s, 0, props)
}

/// Substitution passes applied until one changes nothing, or `fuel` passes
/// have been made.
pub open spec fn spec_resolve(
    s: Seq<char>,
    props: Seq<(Seq<char>, Seq<char>)>,
    fuel: nat,
) -> Seq<char>
    decreases fuel,
{
    if fuel == 0 {
        s
    } else {
        let t = spec_pass_once(s, props);
        if t == s {
            s
        } else {
            spec_resolve(t, props, (fuel - 1) as nat)
        }
    }
}

/// Text that one pass leaves unchanged is left unchanged by any number of
/// passes.
pub proof fn lemma_resolve_fixpoint(s: Seq<char>, props: Seq<(Seq<char>, Seq<char>)>, fuel: nat)
    requires
        spec_pass_once(s, props) == s,
    ensures
        spec_resolve(s, props, fuel) == s,
{
}

/// Placeholder expansion is idempotent at its fixed point: when expansion
/// of `s` has converged (one further pass over the result changes nothing),
/// expanding the result again, with any pass bound, gives it back unchanged.
pub proof fn lemma_resolve_idempotent(
    s: Seq<char>,
    props: Seq<(Seq<char>, Seq<char>)>,
    fuel: nat,
    fuel2: nat,
)
    requires
        spec_pass_once(spec_resolve(s, props, fuel), props) == spec_resolve(s, props, fuel),
    ensures
        spec_resolve(spec_resolve(s, props, fuel), props, fuel2) == spec_resolve(s, props, fuel),
{
    lemma_resolve_fixpoint(spec_resolve(s, props, fuel), props, fuel2);
}

/// What a match answer means: a found entry's reference does stand at
/// `i`, and a miss means no entry's reference stands there.
proof fn lemma_match_at(s: Seq<char>, i: int, props: Seq<(Seq<char>, Seq<char>)>)
    ensures
        match match_at(s, i, props) {
            Some(kv) => occurs_at(s, i, key_pattern(kv.0)),
            None => forall|e: int|
                0 <= e < props.len() ==> !occurs_at(s, i, key_pattern(#[trigger] props[e].0)),
        },
    decreases props.len(),
{
    if props.len() > 0 && !occurs_at(s, i, key_pattern(props[0].0)) {
        lemma_match_at(s, i, props.drop_first());
        assert(forall|e: int|
            1 <= e < props.len() ==> props.drop_first()[e - 1] == #[trigger] props[e]);
    }
}

/// Whether the characters of `pat` stand in `s` at position `i`.
fn occurs_at_exec(s: &Vec<char>, i: usize, pat: &Vec<char>) -> (r: bool)
    ensures
        r == occurs_at(s@, i as int, pat@),
{
    let n = s.len();
    let m = pat.len();
    if m > n || i > n - m {
        assert(!occurs_at(s@, i as int, pat@));
        return false;
    }
    let mut t: usize = 0;
    while t < m
        invariant
            n == s@.len(),
            m == pat@.len(),
            m <= n,
            i <= n - m,
            t <= m,
            forall|q: int| 0 <= q < t ==> s@[i + q] == pat@[q],
        decreases m - t,
    {
        if s[i + t] != pat[t] {
            assert(!occurs_at(s@, i as int, pat@)) by {
                if occurs_at(s@, i as int, pat@) {
                    assert(s@.subrange(i as int, i + pat@.len() as int)[t as int] == s@[i + t]);
                }
            }
            return false;
        }
        t = t + 1;
    }
    assert(s@.subrange(i as int, i + m) =~= pat@);
    true
}

/// Scans the property table in order for an entry whose reference text
/// stands in `s` at position `i`, returning the reference's length and the
/// entry's value.
fn find_match_at(s: &Vec<char>, i: usize, props: &Properties) -> (r: Option<(usize, String)>)
    ensures
        match match_at(s@, i as int, props@) {
            Some(kv) => r matches Some(pr) && pr.0 == key_pattern(kv.0).len() && pr.1@ == kv.1,
            None => r is None,
        },
{
    let m = props.entries.len();
    let mut e: usize = 0;
    assert(props@.skip(0) =~= props@);
    while e < m
        invariant
            m == props@.len(),
            e <= m,
            match_at(s@, i as int, props@) == match_at(s@, i as int, props@.skip(e as int)),
        decreases m - e,
    {
        assert(props@.skip(e as int).drop_first() =~= props@.skip(e + 1));
        assert(props@.skip(e as int)[0] == props@[e as int]);
        let mut pat: Vec<char> = Vec::new();
        pat.push('$');
        pat.push('{');
        append_str_chars(&mut pat, props.entries[e].0.as_str());
        pat.push('}');
        assert(pat@ =~= key_pattern(props@[e as int].0));
        if occurs_at_exec(s, i, &pat) {
            return Some((pat.len(), props.entries[e].1.clone()));
        }
        e = e + 1;
    }
    assert(props@.skip(m as int) =~= Seq::<(Seq<char>, Seq<char>)>::empty());
    None
}

/// One full substitution pass over the characters of `s`.
fn pass_once(s: &Vec<char>, props: &Properties) -> (r: Vec<char>)
    ensures
        r@ == spec_pass_once(s@, props@),
{
    let n = s.len();
    let mut out: Vec<char> = Vec::new();
    let mut i: usize = 0;
    assert(out@ + spec_pass_from(s@, 0, props@) =~= spec_pass_from(s@, 0, props@));
    while i < n
        invariant
            n == s@.len(),
            i <= n,
            spec_pass_once(s@, props@) == out@ + spec_pass_from(s@, i as int, props@),
        decreases n - i,
    {
        match find_match_at(s, i, props) {
            Some((plen, v)) => {
                proof {
                    lemma_match_at(s@, i as int, props@);
                }
                let vc = str_to_chars(v.as_str());
                append_chars(&mut out, &vc);
                i = i + plen;
            },
            None => {
                out.push(s[i]);
                i = i + 1;
            },
        }
    }
    assert(spec_pass_from(s@, n as int, props@) == Seq::<char>::empty());
    assert(out@ =~= out@ + Seq::<char>::empty());
    out
}

/// Expands every `${key}` reference in `s` using `props`, repeating whole
/// passes until one changes nothing or the pass bound is reached.
pub fn resolve_placeholders(s: &str, props: &Properties) -> (r: String)
    ensures
        r@ == spec_resolve(s@, props@, MAX_EXPANSION_PASSES as nat),
{
    let mut cur = str_to_chars(s);
    let mut k: usize = 0;
    while k < MAX_EXPANSION_PASSES
        invariant
            k <= MAX_EXPANSION_PASSES,
            spec_resolve(s@, props@, MAX_EXPANSION_PASSES as nat) == spec_resolve(
                cur@,
                props@,
                (MAX_EXPANSION_PASSES - k) as nat,
            ),
        decreases MAX_EXPANSION_PASSES - k,
    {
        let next = pass_once(&cur, props);
        if chars_eq(&next, &cur) {
            proof {
                lemma_resolve_fixpoint(cur@, props@, (MAX_EXPANSION_PASSES - k) as nat);
            }
            return chars_to_string(&cur);
        }
        cur = next;
        k = k + 1;
    }
    chars_to_string(&cur)
}

} // verus!
