use vstd::prelude::*;
use crate::codec::{percent_encode, pe_str};

verus! {

/// One protocol or request parameter, name and value already
/// percent-encoded per the OAuth profile.
#[derive(Debug)]
pub struct EncodedPair {
    pub name: String,
    pub value: String,
}

impl View for EncodedPair {
    type V = (Seq<char>, Seq<char>);

    open spec fn view(&self) -> (Seq<char>, Seq<char>) {
        (self.name@, self.value@)
    }
}

pub open spec fn pair_views(s: Seq<EncodedPair>) -> Seq<(Seq<char>, Seq<char>)> {
    s.map_values(|p: EncodedPair| p@)
}

/// Build one encoded pair from a raw name and value.
pub fn encode_pair(name: &str, value: &str) -> (r: EncodedPair)
    ensures
        r@ == (pe_str(name@), pe_str(value@)),
{
    EncodedPair { name: percent_encode(name.as_bytes()), value: percent_encode(value.as_bytes()) }
}

/// Lexicographic order on character strings by code point,
/// which on percent-encoded (ASCII) text is ascending byte order.
pub open spec fn lex_le(a: Seq<char>, b: Seq<char>) -> bool
    decreases a.len(),
{
    if a.len() == 0 {
        true
    } else if b.len() == 0 {
        false
    } else if (a[0] as int) < (b[0] as int) {
        true
    } else if (a[0] as int) > (b[0] as int) {
        false
    } else {
        lex_le(a.skip(1), b.skip(1))
    }
}

/// Parameter order: by encoded name, then by encoded value on equal names.
pub open spec fn pair_le(x: (Seq<char>, Seq<char>), y: (Seq<char>, Seq<char>)) -> bool {
    if x.0 == y.0 {
        lex_le(x.1, y.1)
    } else {
        lex_le(x.0, y.0)
    }
}

pub open spec fn sorted_pairs(s: Seq<(Seq<char>, Seq<char>)>) -> bool {
    forall|i: int, j: int| 0 <= i < j < s.len() ==> pair_le(s[i], s[j])
}

/// Insertion of one pair into a sorted prefix: it lands after every
/// element it does not strictly precede, so equal pairs keep their
/// original order (the sort is stable).
pub open spec fn insert_spec(s: Seq<(Seq<char>, Seq<char>)>, x: (Seq<char>, Seq<char>)) -> Seq<
    (Seq<char>, Seq<char>),
>
    decreases s.len(),
{
    if s.len() == 0 {
        seq![x]
    } else if pair_le(s.last(), x) {
        s.push(x)
    } else {
        insert_spec(s.drop_last(), x).push(s.last())
    }
}

/// Stable insertion sort of a parameter list.
pub open spec fn sort_spec(s: Seq<(Seq<char>, Seq<char>)>) -> Seq<(Seq<char>, Seq<char>)>
    decreases s.len(),
{
    if s.len() == 0 {
        s
    } else {
        insert_spec(sort_spec(s.drop_last()), s.last())
    }
}

fn lex_le_exec(a: &str, b: &str) -> (r: bool)
    ensures
        r == lex_le(a@, b@),
{
    let na = a.unicode_len();
    let nb = b.unicode_len();
    let mut i: usize = 0;
    proof {
        assert(a@.skip(0) =~= a@);
        assert(b@.skip(0) =~= b@);
    }
    while i < na && i < nb
        invariant
            na == a@.len(),
            nb == b@.len(),
            i <= na,
            i <= nb,
            lex_le(a@, b@) == lex_le(a@.skip(i as int), b@.skip(i as int)),
        decreases na - i,
    {
        let ca = a.get_char(i);
        let cb = b.get_char(i);
        if (ca as u32) < (cb as u32) {
            return true;
        }
        if (ca as u32) > (cb as u32) {
            return false;
        }
        proof {
            assert(a@.skip(i as int).skip(1) =~= a@.skip(i + 1));
            assert(b@.skip(i as int).skip(1) =~= b@.skip(i + 1));
        }
        i += 1;
    }
    proof {
        if i >= na {
            assert(a@.skip(i as int) =~= Seq::<char>::empty());
        } else {
            assert(b@.skip(i as int) =~= Seq::<char>::empty());
            assert(a@.skip(i as int).len() > 0);
        }
    }
    i >= na
}

fn pair_le_exec(x: &EncodedPair, y: &EncodedPair) -> (r: bool)
    ensures
        r == pair_le(x@, y@),
{
    if x.name == y.name {
        lex_le_exec(x.value.as_str(), y.value.as_str())
    } else {
        lex_le_exec(x.name.as_str(), y.name.as_str())
    }
}

proof fn lemma_insert_at(s: Seq<(Seq<char>, Seq<char>)>, x: (Seq<char>, Seq<char>), k: int)
    requires
        0 <= k <= s.len(),
        forall|j: int| k <= j < s.len() ==> !pair_le(s[j], x),
        k > 0 ==> pair_le(s[k - 1], x),
    ensures
        insert_spec(s, x) == s.insert(k, x),
    decreases s.len(),
{
    if s.len() == 0 {
        assert(insert_spec(s, x) =~= s.insert(0, x));
    } else if k == s.len() {
        assert(pair_le(s.last(), x));
        assert(s.push(x) =~= s.insert(k, x));
    } else {
        assert(!pair_le(s.last(), x));
        lemma_insert_at(s.drop_last(), x, k);
        assert(insert_spec(s.drop_last(), x).push(s.last()) =~= s.insert(k, x));
    }
}

/// Insert one pair into a sorted list, after every pair it does not
/// strictly precede.
fn insert_sorted(v: &mut Vec<EncodedPair>, x: EncodedPair)
    ensures
        pair_views(final(v)@) == insert_spec(pair_views(old(v)@), x@),
{
    let ghost s = pair_views(v@);
    let ghost xv = x@;
    let mut k: usize = v.len();
    let mut done = false;
    while !done && k > 0
        invariant
            k <= v@.len(),
            s == pair_views(v@),
            xv == x@,
            s.len() == v@.len(),
            forall|j: int| k <= j < s.len() ==> !pair_le(s[j], xv),
            done ==> k > 0 && pair_le(s[k - 1], xv),
        decreases (if done { 0int } else { 1int }), k,
    {
        proof {
            assert(s[k - 1] == v@[k - 1]@);
        }
        if pair_le_exec(&v[k - 1], &x) {
            proof {
                assert(pair_le(s[k - 1], xv));
            }
            done = true;
        } else {
            proof {
                assert(!pair_le(s[k - 1], xv));
            }
            k -= 1;
        }
    }
    proof {
        lemma_insert_at(s, xv, k as int);
    }
    v.insert(k, x);
    proof {
        assert(pair_views(v@) =~= s.insert(k as int, xv));
    }
}

/// Canonical ordering of a parameter set: stable sort by encoded name,
/// then encoded value, ascending (RFC 5849 section 3.4.1.3.2).
pub fn sort_params(v: Vec<EncodedPair>) -> (r: Vec<EncodedPair>)
    ensures
        pair_views(r@) == sort_spec(pair_views(v@)),
{
    let ghost orig = pair_views(v@);
    let mut rest = v;
    let mut out: Vec<EncodedPair> = Vec::new();
    proof {
        assert(pair_views(out@) =~= Seq::<(Seq<char>, Seq<char>)>::empty());
        assert(pair_views(out@) =~= sort_spec(orig.take(0)));
        assert(pair_views(rest@) =~= orig.skip(0));
    }
    while rest.len() > 0
        invariant
            rest@.len() <= orig.len(),
            pair_views(out@) == sort_spec(orig.take(orig.len() - rest@.len())),
            pair_views(rest@) == orig.skip(orig.len() - rest@.len()),
        decreases rest@.len(),
    {
        let ghost i: int = orig.len() - rest@.len();
        let ghost pre = rest@;
        proof {
            assert(pair_views(pre).len() == pre.len());
            assert(i < orig.len());
            assert(pair_views(pre)[0] == pre[0]@);
            assert(orig.skip(i)[0] == orig[i]);
        }
        let x = rest.remove(0);
        proof {
            assert(x@ == orig[i]);
            assert(rest@ =~= pre.skip(1));
            assert forall|j: int| 0 <= j < rest@.len() implies pair_views(rest@)[j] == orig.skip(
                i + 1,
            )[j] by {
                assert(pair_views(rest@)[j] == rest@[j]@);
                assert(rest@[j] == pre[j + 1]);
                assert(pair_views(pre)[j + 1] == pre[j + 1]@);
                assert(orig.skip(i)[j + 1] == orig[i + 1 + j]);
            }
            assert(pair_views(rest@) =~= orig.skip(i + 1));
        }
        insert_sorted(&mut out, x);
        proof {
            assert(orig.take(i + 1).drop_last() =~= orig.take(i));
            assert(orig.take(i + 1).last() == orig[i]);
        }
    }
    proof {
        assert(orig.take(orig.len() - rest@.len()) =~= orig);
    }
    out
}

proof fn lemma_lex_le_total(a: Seq<char>, b: Seq<char>)
    ensures
        lex_le(a, b) || lex_le(b, a),
    decreases a.len(),
{
    if a.len() > 0 && b.len() > 0 && a[0] == b[0] {
        lemma_lex_le_total(a.skip(1), b.skip(1));
    }
}

proof fn lemma_lex_le_antisym(a: Seq<char>, b: Seq<char>)
    requires
        lex_le(a, b),
        lex_le(b, a),
    ensures
        a == b,
    decreases a.len(),
{
    if a.len() == 0 {
        assert(b.len() == 0);
        assert(a =~= b);
    } else {
        assert(b.len() > 0);
        assert(a[0] == b[0]);
        lemma_lex_le_antisym(a.skip(1), b.skip(1));
        assert(a =~= Seq::empty().push(a[0]) + a.skip(1));
        assert(b =~= Seq::empty().push(b[0]) + b.skip(1));
    }
}

proof fn lemma_lex_le_trans(a: Seq<char>, b: Seq<char>, c: Seq<char>)
    requires
        lex_le(a, b),
        lex_le(b, c),
    ensures
        lex_le(a, c),
    decreases a.len(),
{
    if a.len() > 0 && b.len() > 0 && c.len() > 0 && a[0] == b[0] && b[0] == c[0] {
        lemma_lex_le_trans(a.skip(1), b.skip(1), c.skip(1));
    }
}

proof fn lemma_pair_le_total(x: (Seq<char>, Seq<char>), y: (Seq<char>, Seq<char>))
    ensures
        pair_le(x, y) || pair_le(y, x),
{
    lemma_lex_le_total(x.0, y.0);
    lemma_lex_le_total(x.1, y.1);
}

proof fn lemma_pair_le_trans(
    x: (Seq<char>, Seq<char>),
    y: (Seq<char>, Seq<char>),
    z: (Seq<char>, Seq<char>),
)
    requires
        pair_le(x, y),
        pair_le(y, z),
    ensures
        pair_le(x, z),
{
    if x.0 == y.0 && y.0 == z.0 {
        lemma_lex_le_trans(x.1, y.1, z.1);
    } else if x.0 == y.0 {
        assert(pair_le(x, z));
    } else if y.0 == z.0 {
        assert(pair_le(x, z));
    } else {
        if x.0 == z.0 {
            lemma_lex_le_antisym(x.0, y.0);
        } else {
            lemma_lex_le_trans(x.0, y.0, z.0);
        }
    }
}

proof fn lemma_insert_sorted_stays(s: Seq<(Seq<char>, Seq<char>)>, x: (Seq<char>, Seq<char>))
    requires
        sorted_pairs(s),
    ensures
        sorted_pairs(insert_spec(s, x)),
        insert_spec(s, x).len() == s.len() + 1,
        forall|i: int|
            0 <= i < insert_spec(s, x).len() ==> (#[trigger] insert_spec(s, x)[i] == x || exists|
                t: int,
            | 0 <= t < s.len() && s[t] == insert_spec(s, x)[i]),
    decreases s.len(),
{
    let r = insert_spec(s, x);
    if s.len() == 0 {
        assert(sorted_pairs(r));
        assert(r[0] == x);
    } else if pair_le(s.last(), x) {
        assert forall|i: int, j: int| 0 <= i < j < r.len() implies pair_le(r[i], r[j]) by {
            if j == r.len() - 1 {
                if i == r.len() - 2 {
                    assert(pair_le(r[i], r[j]));
                } else {
                    lemma_pair_le_trans(r[i], s.last(), x);
                }
            }
        }
        assert forall|i: int| 0 <= i < r.len() implies (#[trigger] r[i] == x || exists|t: int|
            0 <= t < s.len() && s[t] == r[i]) by {
            if i < s.len() {
                assert(s[i] == r[i]);
            }
        }
    } else {
        assert(sorted_pairs(s.drop_last()));
        lemma_insert_sorted_stays(s.drop_last(), x);
        let q = insert_spec(s.drop_last(), x);
        lemma_pair_le_total(s.last(), x);
        assert(pair_le(x, s.last()));
        assert forall|i: int| 0 <= i < q.len() implies pair_le(q[i], s.last()) by {
            assert(q[i] == x || exists|t: int| 0 <= t < s.drop_last().len() && s.drop_last()[t]
                == q[i]);
            if q[i] == x {
                assert(pair_le(q[i], s.last()));
            } else {
                let t = choose|t: int| 0 <= t < s.drop_last().len() && s.drop_last()[t] == q[i];
                assert(s.drop_last()[t] == s[t]);
                assert(pair_le(s[t], s.last()));
            }
        }
        assert forall|i: int, j: int| 0 <= i < j < r.len() implies pair_le(r[i], r[j]) by {
            if j == r.len() - 1 {
                assert(r[i] == q[i]);
                assert(r[j] == s.last());
            } else {
                assert(r[i] == q[i] && r[j] == q[j]);
                assert(pair_le(q[i], q[j]));
            }
        }
        assert forall|i: int| 0 <= i < r.len() implies (#[trigger] r[i] == x || exists|t: int|
            0 <= t < s.len() && s[t] == r[i]) by {
            if i == r.len() - 1 {
                assert(s[s.len() - 1] == r[i]);
            } else {
                assert(r[i] == q[i]);
                if q[i] != x {
                    let t = choose|t: int| 0 <= t < s.drop_last().len() && s.drop_last()[t]
                        == q[i];
                    assert(s[t] == r[i]);
                }
            }
        }
    }
}

proof fn lemma_sort_sorted(s: Seq<(Seq<char>, Seq<char>)>)
    ensures
        sorted_pairs(sort_spec(s)),
    decreases s.len(),
{
    if s.len() > 0 {
        lemma_sort_sorted(s.drop_last());
        lemma_insert_sorted_stays(sort_spec(s.drop_last()), s.last());
    }
}

/// Law: sorting is idempotent: sorting a second time changes nothing.
pub proof fn lemma_sort_sort(s: Seq<(Seq<char>, Seq<char>)>)
    ensures
        sort_spec(sort_spec(s)) == sort_spec(s),
{
    lemma_sort_sorted(s);
    lemma_sort_idempotent(sort_spec(s));
}

/// Law: re-sorting an already-sorted parameter list is a no-op.
pub proof fn lemma_sort_idempotent(s: Seq<(Seq<char>, Seq<char>)>)
    requires
        sorted_pairs(s),
    ensures
        sort_spec(s) == s,
    decreases s.len(),
{
    if s.len() == 0 {
        assert(sort_spec(s) =~= s);
    } else {
        assert(sorted_pairs(s.drop_last()));
        lemma_sort_idempotent(s.drop_last());
        if s.len() == 1 {
            assert(insert_spec(s.drop_last(), s.last()) =~= s);
        } else {
            assert(pair_le(s[s.len() - 2], s[s.len() - 1]));
            assert(s.drop_last().last() == s[s.len() - 2]);
            assert(s.drop_last().push(s.last()) =~= s);
        }
    }
}

/// The canonical parameter string: `name=value` pairs joined with '&'.
pub open spec fn pair_text(p: (Seq<char>, Seq<char>)) -> Seq<char> {
    p.0 + "="@ + p.1
}

pub open spec fn params_text(s: Seq<(Seq<char>, Seq<char>)>) -> Seq<char>
    decreases s.len(),
{
    if s.len() == 0 {
        Seq::empty()
    } else if s.len() == 1 {
        pair_text(s[0])
    } else {
        params_text(s.drop_last()) + "&"@ + pair_text(s.last())
    }
}

/// Join an encoded parameter list into the canonical parameter string.
pub fn build_params_text(v: &Vec<EncodedPair>) -> (r: String)
    ensures
        r@ == params_text(pair_views(v@)),
{
    let ghost s = pair_views(v@);
    let mut r = String::new();
    let mut i: usize = 0;
    proof {
        assert(r@ =~= params_text(s.take(0)));
    }
    while i < v.len()
        invariant
            i <= v@.len(),
            s == pair_views(v@),
            r@ == params_text(s.take(i as int)),
        decreases v@.len() - i,
    {
        if i > 0 {
            r.append("&");
        }
        r.append(v[i].name.as_str());
        r.append("=");
        r.append(v[i].value.as_str());
        proof {
            assert(s.take(i + 1).drop_last() =~= s.take(i as int));
            assert(s.take(i + 1).last() == s[i as int]);
            assert(s[i as int] == v@[i as int]@);
        }
        i += 1;
    }
    proof {
        assert(s.take(i as int) =~= s);
    }
    r
}

} // verus!
