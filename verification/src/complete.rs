//! Tab completion. From the line and the cursor, the helper extracts the word
//! under the cursor and decides which names to fetch from the execution
//! context: the own properties of the object left of the last `.`, or the
//! global names when the word has no `.`. The names then pass through a pure
//! filter; global candidates are also sorted and deduplicated.

use vstd::prelude::*;

use crate::text::{get_expr_from_line_at_pos, spec_word_at};

verus! {

/// `prefix` starts `s`.
pub open spec fn spec_starts_with(s: Seq<char>, prefix: Seq<char>) -> bool {
    prefix.len() <= s.len() && s.subrange(0, prefix.len() as int) == prefix
}

/// Character-wise prefix test.
pub fn str_starts_with(s: &str, prefix: &str) -> (r: bool)
    ensures
        r == spec_starts_with(s@, prefix@),
{
    let n = s.unicode_len();
    let p = prefix.unicode_len();
    if p > n {
        proof {
            assert(!spec_starts_with(s@, prefix@));
        }
        return false;
    }
    let mut i: usize = 0;
    while i < p
        invariant
            p <= n,
            n == s@.len(),
            p == prefix@.len(),
            i <= p,
            forall|j: int| 0 <= j < i ==> s@[j] == prefix@[j],
        decreases p - i,
    {
        if s.get_char(i) != prefix.get_char(i) {
            proof {
                assert(s@.subrange(0, p as int)[i as int] != prefix@[i as int]);
            }
            return false;
        }
        i = i + 1;
    }
    proof {
        assert(s@.subrange(0, p as int) =~= prefix@);
    }
    true
}

/// Index of the last `.` in `s`, or `-1` when there is none.
pub open spec fn last_dot(s: Seq<char>) -> int
    decreases s.len(),
{
    if s.len() == 0 {
        -1
    } else if s.last() == '.' {
        s.len() - 1
    } else {
        last_dot(s.drop_last())
    }
}

pub proof fn lemma_last_dot_props(s: Seq<char>)
    ensures
        -1 <= last_dot(s) < s.len(),
        last_dot(s) >= 0 ==> s[last_dot(s)] == '.',
        forall|j: int| last_dot(s) < j < s.len() ==> s[j] != '.',
    decreases s.len(),
{
    if s.len() == 0 {
    } else if s.last() == '.' {
    } else {
        lemma_last_dot_props(s.drop_last());
        assert forall|j: int| last_dot(s) < j < s.len() implies s[j] != '.' by {
            if j < s.len() - 1 {
                assert(s.drop_last()[j] == s[j]);
            }
        }
        if last_dot(s) >= 0 {
            assert(s.drop_last()[last_dot(s)] == s[last_dot(s)]);
        }
    }
}

/// Find the last `.` of a word, scanning from its end.
pub fn find_last_dot(s: &str) -> (r: Option<usize>)
    ensures
        match r {
            Some(i) => i == last_dot(s@),
            None => last_dot(s@) == -1,
        },
{
    proof {
        lemma_last_dot_props(s@);
    }
    let n = s.unicode_len();
    let mut i: usize = n;
    while i > 0
        invariant
            i <= n,
            n == s@.len(),
            forall|j: int| i <= j < s@.len() ==> s@[j] != '.',
            last_dot(s@) < i,
        decreases i,
    {
        i = i - 1;
        proof {
            lemma_last_dot_props(s@);
        }
        if s.get_char(i) == '.' {
            proof {
                // A dot at `i` with none after it is the last dot.
                assert(last_dot(s@) >= 0);
                assert(last_dot(s@) == i as int);
            }
            return Some(i);
        }
    }
    None
}

/// Which names completion must fetch from the execution context.
pub enum CompletionQuery {
    /// The own property names of the object `object_expr` evaluates to,
    /// probed side-effect-free.
    PropertyList { object_expr: String },
    /// The union of the global object's property names and the global lexical
    /// scope names.
    GlobalNames,
}

/// The plan for one completion call: what to fetch, the prefix candidates
/// must start with, and where the replacement begins.
pub struct CompletionPlan {
    pub query: CompletionQuery,
    pub prefix: String,
    pub replace_start: usize,
}

/// Length of the prefix the plan filters by, for the given line and cursor.
pub open spec fn spec_plan_prefix_len(line: Seq<char>, pos: int) -> int {
    let w = spec_word_at(line, pos);
    if last_dot(w) >= 0 {
        w.len() - last_dot(w) - 1
    } else {
        w.len() as int
    }
}

/// Decide what one completion call fetches. The word under the cursor is
/// split at its last `.`: the part on the left names the object whose
/// properties are wanted, the part on the right is the prefix. A word with no
/// `.` asks for the global names instead. The replacement starts where the
/// prefix starts, `prefix.len()` characters left of the cursor; the caller
/// keeps the cursor inside or at the end of the word it completes, so the
/// prefix never reaches left of the line start.
pub fn plan_completion(line: &str, pos: usize) -> (p: CompletionPlan)
    requires
        pos <= line@.len(),
        spec_plan_prefix_len(line@, pos as int) <= pos,
    ensures
        ({
            let w = spec_word_at(line@, pos as int);
            let d = last_dot(w);
            &&& (d >= 0 ==> {
                &&& p.query matches CompletionQuery::PropertyList { object_expr } && object_expr@
                    == w.subrange(0, d)
                &&& p.prefix@ == w.subrange(d + 1, w.len() as int)
            })
            &&& (d < 0 ==> p.query == CompletionQuery::GlobalNames && p.prefix@ == w)
            &&& p.replace_start == pos - p.prefix@.len()
        }),
{
    let word = get_expr_from_line_at_pos(line, pos);
    let wlen = word.unicode_len();
    proof {
        lemma_last_dot_props(word@);
    }
    match find_last_dot(word) {
        Some(d) => {
            let object_expr = String::from_str(word.substring_char(0, d));
            let prefix = String::from_str(word.substring_char(d + 1, wlen));
            let plen = wlen - (d + 1);
            CompletionPlan {
                query: CompletionQuery::PropertyList { object_expr },
                prefix,
                replace_start: pos - plen,
            }
        },
        None => {
            let prefix = String::from_str(word);
            CompletionPlan {
                query: CompletionQuery::GlobalNames,
                prefix,
                replace_start: pos - wlen,
            }
        },
    }
}

/// A property name completion keeps: it starts with the typed prefix and is
/// not a symbol-named entry.
pub open spec fn keep_property(n: Seq<char>, prefix: Seq<char>) -> bool {
    !spec_starts_with(n, "Symbol("@) && spec_starts_with(n, prefix)
}

/// The names that pass a filter, keeping their order.
pub open spec fn filtered_names(names: Seq<Seq<char>>, prefix: Seq<char>) -> Seq<Seq<char>>
    decreases names.len(),
{
    if names.len() == 0 {
        Seq::empty()
    } else if keep_property(names.last(), prefix) {
        filtered_names(names.drop_last(), prefix).push(names.last())
    } else {
        filtered_names(names.drop_last(), prefix)
    }
}

/// Filter an object's own property names down to completion candidates:
/// those starting with the typed prefix, excluding symbol-named properties.
/// The order the execution context reported is kept.
pub fn property_candidates(names: &Vec<String>, prefix: &str) -> (out: Vec<String>)
    ensures
        out.deep_view() == filtered_names(names.deep_view(), prefix@),
{
    let mut out: Vec<String> = Vec::new();
    let mut i: usize = 0;
    proof {
        assert(names.deep_view().take(0) =~= Seq::<Seq<char>>::empty());
        assert(out.deep_view() =~= Seq::<Seq<char>>::empty());
    }
    while i < names.len()
        invariant
            i <= names.len(),
            names.deep_view().len() == names@.len(),
            forall|k: int| #![auto] 0 <= k < names@.len() ==> names.deep_view()[k] == names@[k]@,
            out.deep_view() == filtered_names(names.deep_view().take(i as int), prefix@),
        decreases names.len() - i,
    {
        let name = &names[i];
        let ghost pre_dv = out.deep_view();
        if !str_starts_with(name.as_str(), "Symbol(") && str_starts_with(name.as_str(), prefix) {
            out.push(name.clone());
            proof {
                assert(out.deep_view() =~= pre_dv.push(name@));
            }
        }
        proof {
            let dv = names.deep_view();
            assert(dv.take(i as int + 1).drop_last() =~= dv.take(i as int));
            assert(dv.take(i as int + 1).last() == dv[i as int]);
        }
        i = i + 1;
    }
    proof {
        assert(names.deep_view().take(names@.len() as int) =~= names.deep_view());
    }
    out
}

/// Strict lexicographic order on character sequences, by code point.
pub open spec fn lex_lt(a: Seq<char>, b: Seq<char>) -> bool
    decreases a.len(),
{
    if b.len() == 0 {
        false
    } else if a.len() == 0 {
        true
    } else if a[0] != b[0] {
        (a[0] as u32) < (b[0] as u32)
    } else {
        lex_lt(a.skip(1), b.skip(1))
    }
}

/// `lex_lt` is a strict total order: exactly one of `a < b`, `a == b`,
/// `b < a` holds.
pub proof fn lemma_lex_trichotomy(a: Seq<char>, b: Seq<char>)
    ensures
        lex_lt(a, b) || lex_lt(b, a) || a == b,
        !(lex_lt(a, b) && lex_lt(b, a)),
        a == b ==> !lex_lt(a, b),
    decreases a.len(),
{
    if b.len() == 0 {
        if a.len() == 0 {
            assert(a =~= b);
        }
    } else if a.len() == 0 {
    } else if a[0] != b[0] {
        // Distinct characters have distinct code points.
        vstd::utf8::char_u32_cast(a[0], a[0] as u32);
        vstd::utf8::char_u32_cast(b[0], b[0] as u32);
    } else {
        lemma_lex_trichotomy(a.skip(1), b.skip(1));
        if a.skip(1) == b.skip(1) {
            assert forall|k: int| 0 <= k < a.len() implies a[k] == b[k] by {
                if k > 0 {
                    assert(a.skip(1)[k - 1] == b.skip(1)[k - 1]);
                }
            }
            assert(a =~= b);
        }
        if a == b {
            assert(a.skip(1) =~= b.skip(1));
        }
    }
}

/// `lex_lt` is transitive.
pub proof fn lemma_lex_trans(a: Seq<char>, b: Seq<char>, c: Seq<char>)
    requires
        lex_lt(a, b),
        lex_lt(b, c),
    ensures
        lex_lt(a, c),
    decreases a.len(),
{
    if a.len() == 0 {
    } else {
        // `a < b` and `b < c` force both `b` and `c` to be non-empty.
        if a[0] == b[0] && b[0] == c[0] {
            lemma_lex_trans(a.skip(1), b.skip(1), c.skip(1));
        }
    }
}

/// Positional comparison agrees with `lex_lt`: with the first `i` characters
/// equal, either a smaller character at `i` or `a` running out first makes
/// `a` the smaller sequence.
pub proof fn lemma_lex_lt_at(a: Seq<char>, b: Seq<char>, i: int)
    requires
        0 <= i <= a.len(),
        i <= b.len(),
        a.subrange(0, i) == b.subrange(0, i),
        (i < a.len() && i < b.len() && (a[i] as u32) < (b[i] as u32)) || (i == a.len() && i
            < b.len()),
    ensures
        lex_lt(a, b),
    decreases i,
{
    if i == 0 {
    } else {
        assert(a.subrange(0, i)[0] == b.subrange(0, i)[0]);
        assert(a.subrange(0, i)[0] == a[0]);
        assert(b.subrange(0, i)[0] == b[0]);
        assert(a[0] == b[0]);
        assert(a.skip(1).subrange(0, i - 1) =~= a.subrange(0, i).skip(1));
        assert(b.skip(1).subrange(0, i - 1) =~= b.subrange(0, i).skip(1));
        assert(a.subrange(0, i).skip(1) =~= b.subrange(0, i).skip(1));
        if i < a.len() {
            assert(a.skip(1)[i - 1] == a[i]);
            assert(b.skip(1)[i - 1] == b[i]);
        }
        lemma_lex_lt_at(a.skip(1), b.skip(1), i - 1);
    }
}

/// Three-way character-wise comparison of two strings.
pub fn str_cmp(a: &str, b: &str) -> (r: i32)
    ensures
        r == -1 || r == 0 || r == 1,
        (r == -1) == lex_lt(a@, b@),
        (r == 0) == (a@ == b@),
        (r == 1) == lex_lt(b@, a@),
{
    proof {
        lemma_lex_trichotomy(a@, b@);
    }
    let an = a.unicode_len();
    let bn = b.unicode_len();
    let mut i: usize = 0;
    while i < an && i < bn
        invariant
            i <= an,
            i <= bn,
            an == a@.len(),
            bn == b@.len(),
            a@.subrange(0, i as int) == b@.subrange(0, i as int),
        decreases an - i,
    {
        let ca = a.get_char(i);
        let cb = b.get_char(i);
        if (ca as u32) < (cb as u32) {
            proof {
                lemma_lex_lt_at(a@, b@, i as int);
                lemma_lex_trichotomy(a@, b@);
            }
            return -1;
        }
        if (cb as u32) < (ca as u32) {
            proof {
                lemma_lex_lt_at(b@, a@, i as int);
                lemma_lex_trichotomy(a@, b@);
            }
            return 1;
        }
        proof {
            assert(ca == cb);
            assert(a@.subrange(0, i as int + 1) =~= b@.subrange(0, i as int + 1));
        }
        i = i + 1;
    }
    if an < bn {
        proof {
            lemma_lex_lt_at(a@, b@, an as int);
            lemma_lex_trichotomy(a@, b@);
        }
        -1
    } else if bn < an {
        proof {
            lemma_lex_lt_at(b@, a@, bn as int);
            lemma_lex_trichotomy(a@, b@);
        }
        1
    } else {
        proof {
            assert(a@ =~= a@.subrange(0, an as int));
            assert(b@ =~= b@.subrange(0, bn as int));
            lemma_lex_trichotomy(a@, b@);
        }
        0
    }
}

/// Every name is strictly smaller than every later one: sorted, without
/// duplicates.
pub open spec fn strictly_sorted(names: Seq<Seq<char>>) -> bool {
    forall|i: int, j: int| 0 <= i < j < names.len() ==> lex_lt(names[i], names[j])
}

/// Insert a name into a sorted list, keeping it sorted and dropping the name
/// if it is already there.
pub fn insert_sorted_unique(v: &mut Vec<String>, x: String)
    requires
        strictly_sorted(old(v).deep_view()),
    ensures
        strictly_sorted(final(v).deep_view()),
        forall|n: Seq<char>| #![auto]
            final(v).deep_view().contains(n) <==> (old(v).deep_view().contains(n) || n == x@),
{
    let ghost old_dv = v.deep_view();
    let n = v.len();
    let mut i: usize = 0;
    while i < n
        invariant
            strictly_sorted(v.deep_view()),
            v == old(v),
            n == v@.len(),
            v.deep_view().len() == v@.len(),
            forall|k: int| #![auto] 0 <= k < v@.len() ==> v.deep_view()[k] == v@[k]@,
            i <= v@.len(),
            forall|k: int| #![auto] 0 <= k < i ==> lex_lt(v.deep_view()[k], x@),
        decreases v@.len() - i,
    {
        let cmp = str_cmp(v[i].as_str(), x.as_str());
        if cmp == 0 {
            proof {
                assert(v.deep_view()[i as int] == x@);
                assert forall|n2: Seq<char>| #![auto]
                    v.deep_view().contains(n2) <==> (v.deep_view().contains(n2) || n2 == x@) by {
                    if n2 == x@ {
                        assert(v.deep_view()[i as int] == n2);
                    }
                }
            }
            return ;
        }
        if cmp == 1 {
            // `x` goes right here: smaller than this entry, larger than all
            // before it.
            insert_name_at(v, i, x);
            return ;
        }
        i = i + 1;
    }
    insert_name_at(v, n, x);
}

/// Insert a name at its position in a sorted list: everything before `i` is
/// smaller, the entry at `i` (if any) larger.
fn insert_name_at(v: &mut Vec<String>, i: usize, x: String)
    requires
        i <= old(v)@.len(),
        strictly_sorted(old(v).deep_view()),
        forall|k: int| #![auto] 0 <= k < i ==> lex_lt(old(v).deep_view()[k], x@),
        i < old(v)@.len() ==> lex_lt(x@, old(v).deep_view()[i as int]),
    ensures
        strictly_sorted(final(v).deep_view()),
        forall|n: Seq<char>| #![auto]
            final(v).deep_view().contains(n) <==> (old(v).deep_view().contains(n) || n == x@),
{
    let ghost old_dv = v.deep_view();
    let ghost pre = v@;
    proof {
        assert forall|k: int| 0 <= k < pre.len() implies #[trigger] old_dv[k] == pre[k]@ by {}
    }
    v.insert(i, x);
    proof {
        let dv = v.deep_view();
        assert(v@ == pre.insert(i as int, x));
        assert(dv.len() == pre.len() + 1);
        assert forall|k: int| 0 <= k < dv.len() implies #[trigger] dv[k] == (if k < i as int {
            old_dv[k]
        } else if k == i as int {
            x@
        } else {
            old_dv[k - 1]
        }) by {
            assert(dv[k] == v@[k]@);
        }
        assert forall|k1: int, k2: int| 0 <= k1 < k2 < dv.len() implies lex_lt(dv[k1], dv[k2]) by {
            if k2 < i as int {
            } else if k2 == i as int {
                assert(lex_lt(old_dv[k1], x@));
            } else if k1 < i as int {
                if k1 < k2 - 1 {
                } else {
                    assert(k1 == k2 - 1 && k1 < i as int && k2 > i as int);
                    assert(false);
                }
            } else if k1 == i as int {
                if k2 - 1 == i as int {
                    assert(lex_lt(x@, old_dv[k2 - 1]));
                } else {
                    assert(lex_lt(x@, old_dv[i as int]));
                    assert(lex_lt(old_dv[i as int], old_dv[k2 - 1]));
                    lemma_lex_trans(x@, old_dv[i as int], old_dv[k2 - 1]);
                }
            } else {
            }
        }
        assert forall|n: Seq<char>| #![auto]
            dv.contains(n) <==> (old_dv.contains(n) || n == x@) by {
            if dv.contains(n) {
                let k = choose|k: int| 0 <= k < dv.len() && (#[trigger] dv[k]) == n;
                if k < i as int {
                    assert(old_dv[k] == n);
                } else if k > i as int {
                    assert(old_dv[k - 1] == n);
                }
            }
            if old_dv.contains(n) {
                let k = choose|k: int| 0 <= k < old_dv.len() && (#[trigger] old_dv[k]) == n;
                if k < i as int {
                    assert(dv[k] == n);
                } else {
                    assert(dv[k + 1] == n);
                }
            }
            if n == x@ {
                assert(dv[i as int] == n);
            }
        }
    }
}

/// Global completion candidates: the union of the global object's property
/// names and the lexical scope names, filtered by the typed prefix, sorted
/// and without duplicates.
pub fn global_candidates(props: &Vec<String>, scope_names: &Vec<String>, prefix: &str) -> (out: Vec<
    String,
>)
    ensures
        strictly_sorted(out.deep_view()),
        forall|n: Seq<char>| #![auto]
            out.deep_view().contains(n) <==> ((props.deep_view().contains(n)
                || scope_names.deep_view().contains(n)) && spec_starts_with(n, prefix@)),
{
    let mut out: Vec<String> = Vec::new();
    let mut i: usize = 0;
    while i < props.len()
        invariant
            i <= props@.len(),
            props.deep_view().len() == props@.len(),
            forall|k: int| #![auto] 0 <= k < props@.len() ==> props.deep_view()[k] == props@[k]@,
            strictly_sorted(out.deep_view()),
            forall|n: Seq<char>| #![auto]
                out.deep_view().contains(n) <==> (props.deep_view().take(i as int).contains(n)
                    && spec_starts_with(n, prefix@)),
        decreases props@.len() - i,
    {
        let name = &props[i];
        if str_starts_with(name.as_str(), prefix) {
            insert_sorted_unique(&mut out, name.clone());
        }
        proof {
            lemma_take_one_more(props.deep_view(), i as int);
        }
        i = i + 1;
    }
    proof {
        assert(props.deep_view().take(props@.len() as int) =~= props.deep_view());
    }
    let mut j: usize = 0;
    while j < scope_names.len()
        invariant
            j <= scope_names@.len(),
            scope_names.deep_view().len() == scope_names@.len(),
            forall|k: int| #![auto]
                0 <= k < scope_names@.len() ==> scope_names.deep_view()[k] == scope_names@[k]@,
            strictly_sorted(out.deep_view()),
            forall|n: Seq<char>| #![auto]
                out.deep_view().contains(n) <==> ((props.deep_view().contains(n)
                    || scope_names.deep_view().take(j as int).contains(n)) && spec_starts_with(
                    n,
                    prefix@,
                )),
        decreases scope_names@.len() - j,
    {
        let name = &scope_names[j];
        if str_starts_with(name.as_str(), prefix) {
            insert_sorted_unique(&mut out, name.clone());
        }
        proof {
            lemma_take_one_more(scope_names.deep_view(), j as int);
        }
        j = j + 1;
    }
    proof {
        assert(scope_names.deep_view().take(scope_names@.len() as int) =~= scope_names.deep_view());
    }
    out
}

/// Membership in a one-longer prefix of a sequence: the old members plus the
/// newly included element.
pub proof fn lemma_take_one_more(s: Seq<Seq<char>>, i: int)
    requires
        0 <= i < s.len(),
    ensures
        forall|n: Seq<char>| #![trigger s.take(i + 1).contains(n)] #![trigger s.take(i).contains(n)]
            s.take(i + 1).contains(n) <==> (s.take(i).contains(n) || n == s[i]),
{
    assert forall|n: Seq<char>| #![trigger s.take(i + 1).contains(n)] #![trigger s.take(i).contains(n)]
        s.take(i + 1).contains(n) <==> (s.take(i).contains(n) || n == s[i]) by {
        if s.take(i + 1).contains(n) {
            let k = choose|k: int| 0 <= k < i + 1 && (#[trigger] s.take(i + 1)[k]) == n;
            if k < i {
                assert(s.take(i)[k] == n);
            }
        }
        if s.take(i).contains(n) {
            let k = choose|k: int| 0 <= k < i && (#[trigger] s.take(i)[k]) == n;
            assert(s.take(i + 1)[k] == n);
        }
        if n == s[i] {
            assert(s.take(i + 1)[i] == n);
        }
    }
}

} // verus!
