//! The variables that a virtual user extracts and reads during a run.
use vstd::prelude::*;
use crate::keymap::KeyMap;
use crate::text::{contains_text, has_prefix, matches_at, occurs_at, owned};

verus! {

/// The opening of a context placeholder, `${$context.`.
pub open spec fn placeholder_open() -> Seq<char> {
    seq!['$', '{', '$', 'c', 'o', 'n', 't', 'e', 'x', 't', '.']
}

/// `j` is the first `}` of `s` after a placeholder opening at its start.
pub open spec fn closes_at(s: Seq<char>, j: int) -> bool {
    &&& 11 <= j < s.len()
    &&& s[j] == '}'
    &&& forall|k: int| 11 <= k < j ==> s[k] != '}'
}

/// `s` starts with a complete placeholder `${$context.NAME}`.
pub open spec fn starts_placeholder(s: Seq<char>) -> bool {
    has_prefix(s, placeholder_open()) && exists|j: int| closes_at(s, j)
}

/// The text `s` with each placeholder `${$context.NAME}` replaced, from left to
/// right, by the value of the variable `NAME` in `vars`; a placeholder whose
/// variable is not set, and any other text, is kept as written.
pub open spec fn interpolated(s: Seq<char>, vars: Map<Seq<char>, String>) -> Seq<char>
    decreases s.len(),
{
    if s.len() == 0 {
        Seq::empty()
    } else if starts_placeholder(s) {
        let j = choose|j: int| closes_at(s, j);
        let name = s.subrange(11, j);
        let head = if vars.contains_key(name) {
            vars[name]@
        } else {
            s.subrange(0, j + 1)
        };
        head + interpolated(s.subrange(j + 1, s.len() as int), vars)
    } else {
        seq![s[0]] + interpolated(s.drop_first(), vars)
    }
}

proof fn lemma_close_unique(s: Seq<char>, j: int)
    requires
        closes_at(s, j),
    ensures
        (choose|k: int| closes_at(s, k)) == j,
{
    let k = choose|k: int| closes_at(s, k);
    if k < j {
        assert(s[k] != '}');
    } else if k > j {
        assert(s[j] != '}');
    }
}

/// Per-virtual-user state: its identity and its variables.
#[derive(Debug, Clone)]
pub struct VuContext {
    pub vu_id: u32,
    pub run_id: String,
    pub variables: KeyMap<String>,
}

impl VuContext {
    /// A context with no variables.
    pub fn new(run_id: String, vu_id: u32) -> (c: Self)
        ensures
            c.vu_id == vu_id,
            c.run_id == run_id,
            c.variables@ == Map::<Seq<char>, String>::empty(),
            c.variables.pairs().len() == 0,
    {
        VuContext { vu_id, run_id, variables: KeyMap::new() }
    }

    /// The value of a variable.
    pub fn get(&self, key: &str) -> (r: Option<&String>)
        ensures
            match r {
                Some(v) => self.variables@.contains_key(key@) && *v == self.variables@[key@],
                None => !self.variables@.contains_key(key@),
            },
    {
        self.variables.get(key)
    }

    /// The text with its context placeholders replaced by the values of the
    /// variables they name.
    pub fn interpolate(&self, text: &str) -> (r: String)
        ensures
            r@ == interpolated(text@, self.variables@),
    {
        proof {
            reveal_strlit("${$context.");
        }
        let open = "${$context.";
        assert(open@ =~= placeholder_open());
        let n = text.unicode_len();
        let mut out = String::new();
        let mut i: usize = 0;
        assert(text@.subrange(0, n as int) =~= text@);
        assert(out@ + interpolated(text@, self.variables@) =~= interpolated(text@, self.variables@));
        while i < n
            invariant
                n == text@.len(),
                i <= n,
                open@ == placeholder_open(),
                interpolated(text@, self.variables@) == out@ + interpolated(
                    text@.subrange(i as int, n as int),
                    self.variables@,
                ),
            decreases n - i,
        {
            let ghost rest = text@.subrange(i as int, n as int);
            let ghost vars = self.variables@;
            if n - i >= 11 && matches_at(text, open, i) {
                assert(has_prefix(rest, placeholder_open())) by {
                    assert(rest.subrange(0, 11) =~= text@.subrange(i as int, i + 11));
                }
                let mut j: usize = i + 11;
                while j < n && text.get_char(j) != '}'
                    invariant
                        n == text@.len(),
                        i + 11 <= j <= n,
                        forall|k: int| i + 11 <= k < j ==> text@[k] != '}',
                    decreases n - j,
                {
                    j = j + 1;
                }
                if j < n {
                    let jr: usize = j - i;
                    assert(closes_at(rest, jr as int)) by {
                        assert forall|k: int| 11 <= k < jr implies rest[k] != '}' by {
                            assert(rest[k] == text@[i + k]);
                        }
                    }
                    proof {
                        lemma_close_unique(rest, jr as int);
                    }
                    let name = text.substring_char(i + 11, j);
                    assert(name@ =~= rest.subrange(11, jr as int));
                    assert(rest.subrange(jr + 1, rest.len() as int) =~= text@.subrange(j + 1, n as int));
                    let ghost before = out@;
                    match self.variables.get(name) {
                        Some(v) => {
                            out.append(v.as_str());
                        },
                        None => {
                            let whole = text.substring_char(i, j + 1);
                            assert(whole@ =~= rest.subrange(0, jr + 1));
                            out.append(whole);
                        },
                    }
                    proof {
                        assert(out@ =~= before + (if vars.contains_key(name@) {
                            vars[name@]@
                        } else {
                            rest.subrange(0, jr + 1)
                        }));
                    }
                    i = j + 1;
                    continue;
                } else {
                    assert(!starts_placeholder(rest)) by {
                        if exists|k: int| closes_at(rest, k) {
                            let k = choose|k: int| closes_at(rest, k);
                            assert(rest[k] == text@[i + k]);
                        }
                    }
                }
            } else {
                assert(!has_prefix(rest, placeholder_open())) by {
                    if has_prefix(rest, placeholder_open()) {
                        assert(occurs_at(text@, open@, i as int)) by {
                            assert(text@.subrange(i as int, i + 11) =~= rest.subrange(0, 11));
                        }
                    }
                }
            }
            let one = text.substring_char(i, i + 1);
            assert(one@ =~= seq![rest[0]]);
            assert(rest.drop_first() =~= text@.subrange(i + 1, n as int));
            out.append(one);
            i = i + 1;
        }
        assert(text@.subrange(n as int, n as int) =~= Seq::<char>::empty());
        out
    }

    /// Sets a variable, replacing any earlier value.
    pub fn set(&mut self, key: String, value: String)
        ensures
            final(self).variables@ == old(self).variables@.insert(key@, value),
            final(self).vu_id == old(self).vu_id,
            final(self).run_id == old(self).run_id,
    {
        self.variables.insert(key, value);
    }
}

impl Default for VuContext {
    /// Virtual user 0 of the run with the empty id, with no variables.
    fn default() -> (c: Self)
        ensures
            c.vu_id == 0,
            c.run_id@ == Seq::<char>::empty(),
            c.variables@ == Map::<Seq<char>, String>::empty(),
    {
        let c = VuContext { vu_id: 0, run_id: String::new(), variables: KeyMap::new() };
        c
    }
}

/// A read after a write gives back what was written, and a write leaves the other
/// variables as they were.
pub proof fn lemma_get_after_set(before: VuContext, after: VuContext, key: Seq<char>, value: String, other: Seq<char>)
    requires
        after.variables@ == before.variables@.insert(key, value),
    ensures
        after.variables@.contains_key(key),
        after.variables@[key] == value,
        other != key ==> (after.variables@.contains_key(other) == before.variables@.contains_key(other)),
        other != key && before.variables@.contains_key(other) ==> after.variables@[other] == before.variables@[other],
{
}

/// A text in which no placeholder opening `${$context.` occurs is left as it is.
pub proof fn lemma_plain_text_unchanged(s: Seq<char>, vars: Map<Seq<char>, String>)
    requires
        !contains_text(s, placeholder_open()),
    ensures
        interpolated(s, vars) == s,
    decreases s.len(),
{
    if s.len() > 0 {
        if has_prefix(s, placeholder_open()) {
            assert(occurs_at(s, placeholder_open(), 0));
        }
        assert(!contains_text(s.drop_first(), placeholder_open())) by {
            if contains_text(s.drop_first(), placeholder_open()) {
                let i = choose|i: int| #[trigger] occurs_at(s.drop_first(), placeholder_open(), i);
                assert(s.subrange(i + 1, i + 1 + 11) =~= s.drop_first().subrange(i, i + 11));
                assert(occurs_at(s, placeholder_open(), i + 1));
            }
        }
        lemma_plain_text_unchanged(s.drop_first(), vars);
        assert(seq![s[0]] + s.drop_first() =~= s);
    }
}

} // verus!
