use vstd::prelude::*;

use crate::machine::{Machine, MachineView};
use crate::text::chars_of;

verus! {

/// `a` comes strictly before `b` in the order of `String`'s `cmp`: UTF-8
/// bytes compared lexicographically, which is the lexicographic order of
/// code points.
pub open spec fn chars_lt(a: Seq<char>, b: Seq<char>) -> bool
    decreases a.len(),
{
    if a.len() == 0 {
        b.len() > 0
    } else if b.len() == 0 {
        false
    } else if (a[0] as u32) < (b[0] as u32) {
        true
    } else if a[0] == b[0] {
        chars_lt(a.drop_first(), b.drop_first())
    } else {
        false
    }
}

/// `a` comes before `b`, or is `b`.
pub open spec fn chars_le(a: Seq<char>, b: Seq<char>) -> bool {
    a == b || chars_lt(a, b)
}

/// The views of a sequence of machines.
pub open spec fn views(s: Seq<Machine>) -> Seq<MachineView> {
    s.map_values(|m: Machine| m@)
}

/// The machines of `s` whose id is `id`, in their order in `s`.
pub open spec fn with_id(s: Seq<MachineView>, id: Seq<char>) -> Seq<MachineView> {
    s.filter(|v: MachineView| v.machine_id == id)
}

/// The machines of `s` come in the order of their ids.
pub open spec fn sorted_by_id(s: Seq<MachineView>) -> bool {
    forall|i: int, j: int|
        0 <= i < j < s.len() ==> chars_le(#[trigger] s[i].machine_id, #[trigger] s[j].machine_id)
}

/// `output` is `input` sorted by id, machines of one id keeping their order.
pub open spec fn is_stable_sort_of(input: Seq<MachineView>, output: Seq<MachineView>) -> bool {
    &&& sorted_by_id(output)
    &&& forall|id: Seq<char>| #[trigger] with_id(output, id) == with_id(input, id)
}

/// No sequence comes before itself.
pub proof fn lemma_lt_irreflexive(a: Seq<char>)
    ensures
        !chars_lt(a, a),
    decreases a.len(),
{
    if a.len() > 0 {
        lemma_lt_irreflexive(a.drop_first());
    }
}

/// The order is transitive.
pub proof fn lemma_lt_transitive(a: Seq<char>, b: Seq<char>, c: Seq<char>)
    requires
        chars_lt(a, b),
        chars_lt(b, c),
    ensures
        chars_lt(a, c),
    decreases a.len(),
{
    if a.len() > 0 && b.len() > 0 && c.len() > 0 && a[0] == b[0] && b[0] == c[0] {
        lemma_lt_transitive(a.drop_first(), b.drop_first(), c.drop_first());
    }
}

/// Of two different sequences, one comes before the other.
pub proof fn lemma_lt_total(a: Seq<char>, b: Seq<char>)
    ensures
        a == b || chars_lt(a, b) || chars_lt(b, a),
    decreases a.len(),
{
    if a.len() > 0 && b.len() > 0 && a[0] == b[0] {
        lemma_lt_total(a.drop_first(), b.drop_first());
        if a.drop_first() == b.drop_first() {
            assert(a.drop_first().len() == b.drop_first().len());
            assert(a.len() == b.len());
            assert forall|i: int| 0 <= i < a.len() implies a[i] == b[i] by {
                if i > 0 {
                    assert(a[i] == a.drop_first()[i - 1]);
                    assert(b[i] == b.drop_first()[i - 1]);
                }
            }
            assert(a =~= b);
        }
    } else if a.len() == 0 && b.len() == 0 {
        assert(a =~= b);
    } else if a.len() > 0 && b.len() > 0 {
        vstd::utf8::char_u32_cast(a[0], a[0] as u32);
        vstd::utf8::char_u32_cast(b[0], b[0] as u32);
    }
}

/// `chars_le` is transitive.
pub proof fn lemma_le_transitive(a: Seq<char>, b: Seq<char>, c: Seq<char>)
    requires
        chars_le(a, b),
        chars_le(b, c),
    ensures
        chars_le(a, c),
{
    if chars_lt(a, b) && chars_lt(b, c) {
        lemma_lt_transitive(a, b, c);
    }
}

/// Comparing two sequences with a common prefix compares what follows it.
proof fn lemma_lt_skip_prefix(a: Seq<char>, b: Seq<char>, i: int)
    requires
        0 <= i <= a.len(),
        i <= b.len(),
        a.take(i) == b.take(i),
    ensures
        chars_lt(a, b) == chars_lt(a.skip(i), b.skip(i)),
    decreases i,
{
    if i == 0 {
        assert(a.skip(0) == a);
        assert(b.skip(0) == b);
    } else {
        assert(a[0] == a.take(i)[0]);
        assert(b[0] == b.take(i)[0]);
        assert(a.drop_first().take(i - 1) =~= a.take(i).drop_first());
        assert(b.drop_first().take(i - 1) =~= b.take(i).drop_first());
        lemma_lt_skip_prefix(a.drop_first(), b.drop_first(), i - 1);
        assert(a.drop_first().skip(i - 1) =~= a.skip(i));
        assert(b.drop_first().skip(i - 1) =~= b.skip(i));
    }
}

/// Whether `a` comes strictly before `b`.
pub fn chars_less(a: &Vec<char>, b: &Vec<char>) -> (r: bool)
    ensures
        r == chars_lt(a@, b@),
{
    let mut i: usize = 0;
    while i < a.len() && i < b.len() && a[i] == b[i]
        invariant
            i <= a.len(),
            i <= b.len(),
            a@.take(i as int) == b@.take(i as int),
        decreases a.len() - i,
    {
        assert(a@.take(i + 1) == a@.take(i as int).push(a@[i as int]));
        assert(b@.take(i + 1) == b@.take(i as int).push(b@[i as int]));
        i = i + 1;
    }
    proof {
        lemma_lt_skip_prefix(a@, b@, i as int);
        let x = a@.skip(i as int);
        let y = b@.skip(i as int);
        if i < a.len() && i < b.len() {
            assert(x[0] == a@[i as int]);
            assert(y[0] == b@[i as int]);
        }
    }
    if i == a.len() {
        i < b.len()
    } else if i == b.len() {
        false
    } else {
        (a[i] as u32) < (b[i] as u32)
    }
}

/// A sequence none of whose machines has the id leaves nothing when filtered by it.
proof fn lemma_with_id_none(s: Seq<MachineView>, id: Seq<char>)
    requires
        forall|i: int| 0 <= i < s.len() ==> #[trigger] s[i].machine_id != id,
    ensures
        with_id(s, id) == Seq::<MachineView>::empty(),
{
    let pred = |v: MachineView| v.machine_id == id;
    assert(s.all(|x: MachineView| !pred(x)));
    s.lemma_all_neg_filter_empty(pred);
}

/// Inserting a machine before the first machine whose id does not come
/// before its own keeps a sorted sequence sorted, and puts the machine first
/// among those of its id.
proof fn lemma_insert_sorted(out: Seq<MachineView>, rest: Seq<MachineView>, m: MachineView, p: int)
    requires
        0 <= p <= out.len(),
        sorted_by_id(out),
        forall|id: Seq<char>| #[trigger] with_id(out, id) == with_id(rest, id),
        forall|j: int| 0 <= j < p ==> chars_lt(#[trigger] out[j].machine_id, m.machine_id),
        p == out.len() || !chars_lt(out[p].machine_id, m.machine_id),
    ensures
        sorted_by_id(out.insert(p, m)),
        forall|id: Seq<char>| #[trigger]
            with_id(out.insert(p, m), id) == with_id(seq![m] + rest, id),
{
    broadcast use vstd::seq_lib::group_seq_properties;

    let s = out.insert(p, m);
    let pre = out.subrange(0, p);
    let post = out.subrange(p, out.len() as int);
    assert(s == pre + seq![m] + post);
    assert(out == pre + post);
    assert forall|i: int, j: int| 0 <= i < j < s.len() implies chars_le(
        #[trigger] s[i].machine_id,
        #[trigger] s[j].machine_id,
    ) by {
        if j < p {
            assert(s[i] == out[i] && s[j] == out[j]);
        } else if j == p {
            assert(s[i] == out[i] && s[j] == m);
        } else if i < p {
            assert(s[i] == out[i] && s[j] == out[j - 1]);
        } else if i == p {
            assert(s[i] == m && s[j] == out[j - 1]);
            lemma_lt_total(m.machine_id, out[p].machine_id);
            if j - 1 > p {
                lemma_le_transitive(m.machine_id, out[p].machine_id, out[j - 1].machine_id);
            }
        } else {
            assert(s[i] == out[i - 1] && s[j] == out[j - 1]);
        }
    }
    assert forall|id: Seq<char>| #[trigger]
        with_id(s, id) == with_id(seq![m] + rest, id) by {
        let pred = |v: MachineView| v.machine_id == id;
        Seq::filter_distributes_over_add(pre + seq![m], post, pred);
        Seq::filter_distributes_over_add(pre, seq![m], pred);
        Seq::filter_distributes_over_add(pre, post, pred);
        assert(with_id(s, id) == with_id(pre, id) + with_id(seq![m], id) + with_id(post, id));
        assert(with_id(out, id) == with_id(pre, id) + with_id(post, id));
        rest.lemma_filter_prepend(m, pred);
        reveal_with_fuel(Seq::filter, 2);
        if id == m.machine_id {
            assert forall|i: int| 0 <= i < pre.len() implies #[trigger] pre[i].machine_id != id by {
                assert(pre[i] == out[i]);
                lemma_lt_irreflexive(m.machine_id);
            }
            lemma_with_id_none(pre, id);
            assert(with_id(seq![m], id) =~= seq![m]);
            assert(with_id(s, id) =~= seq![m] + with_id(post, id));
            assert(with_id(out, id) =~= with_id(post, id));
        } else {
            assert(with_id(seq![m], id) =~= Seq::<MachineView>::empty());
            assert(with_id(s, id) =~= with_id(pre, id) + with_id(post, id));
        }
    }
}

/// `machines` sorted by id; machines of one id keep their order.
pub fn sort_machines(machines: Vec<Machine>) -> (r: Vec<Machine>)
    ensures
        is_stable_sort_of(views(machines@), views(r@)),
        r.len() == machines.len(),
{
    let ghost input = views(machines@);
    let mut rest = machines;
    let mut out: Vec<Machine> = Vec::new();
    while rest.len() > 0
        invariant
            rest.len() <= input.len(),
            views(rest@) == input.take(rest.len() as int),
            sorted_by_id(views(out@)),
            forall|id: Seq<char>| #[trigger]
                with_id(views(out@), id) == with_id(input.skip(rest.len() as int), id),
            out.len() + rest.len() == input.len(),
        decreases rest.len(),
    {
        let ghost k = rest.len() as int;
        let ghost old_rest = rest@;
        let m = rest.pop().unwrap();
        proof {
            assert(views(old_rest)[k - 1] == old_rest[k - 1]@);
            assert(input.take(k)[k - 1] == input[k - 1]);
            assert(views(rest@) =~= input.take(k - 1));
            assert(m@ == input[k - 1]);
            assert(input.skip(k - 1) =~= seq![m@] + input.skip(k));
        }
        let key = chars_of(m.machine_id.as_str());
        let mut p: usize = 0;
        while p < out.len() && chars_less(&chars_of(out[p].machine_id.as_str()), &key)
            invariant
                p <= out.len(),
                key@ == m.machine_id@,
                forall|j: int| 0 <= j < p ==> chars_lt(#[trigger] out@[j].machine_id@, m.machine_id@),
            decreases out.len() - p,
        {
            p = p + 1;
        }
        let ghost old_out = views(out@);
        proof {
            assert forall|j: int| 0 <= j < p implies chars_lt(
                #[trigger] old_out[j].machine_id,
                m@.machine_id,
            ) by {
                assert(old_out[j] == out@[j]@);
            }
            if p < out.len() {
                assert(old_out[p as int] == out@[p as int]@);
            }
            lemma_insert_sorted(old_out, input.skip(k), m@, p as int);
        }
        out.insert(p, m);
        proof {
            assert(views(out@) =~= old_out.insert(p as int, m@));
        }
    }
    proof {
        assert(input.skip(0) == input);
    }
    out
}

} // verus!
