use vstd::prelude::*;
use crate::time::ClockTime;

verus! {

/// What drawing a frame needs of one component of an editor: when it
/// starts, how long it lasts, and the layer it lies on.
pub struct EditorComponent {
    pub start_time: ClockTime,
    pub length: ClockTime,
    pub layer_index: usize,
}

/// Whether a component is on screen at `pos`: from its start to its end,
/// both included.
pub open spec fn visible_at(c: EditorComponent, pos: int) -> bool {
    c.start_time.nanos <= pos <= c.start_time.nanos + c.length.nanos
}

/// Whether the component at position `i` is drawn before the one at `j`:
/// a higher layer first, and within one layer the later component first.
pub open spec fn drawn_before(cs: Seq<EditorComponent>, i: int, j: int) -> bool {
    cs[i].layer_index > cs[j].layer_index || (cs[i].layer_index == cs[j].layer_index && i > j)
}

/// Whether each position in `r` is drawn before every later one.
pub open spec fn in_draw_order(cs: Seq<EditorComponent>, r: Seq<usize>) -> bool {
    forall|a: int, b: int| 0 <= a < b < r.len() ==> drawn_before(cs, #[trigger] r[a] as int, #[trigger] r[b] as int)
}

/// Whether `order` lists the positions of the components on screen at
/// `pos`, each once, in the order they are drawn onto the frame (the
/// reverse of their order sorted stably by layer).
pub open spec fn draw_order(cs: Seq<EditorComponent>, pos: int, order: Seq<usize>) -> bool {
    &&& forall|k: int| 0 <= k < order.len() ==> (#[trigger] order[k]) < cs.len() && visible_at(cs[order[k] as int], pos)
    &&& forall|i: int| 0 <= i < cs.len() && visible_at(#[trigger] cs[i], pos) ==> order.contains(i as usize)
    &&& in_draw_order(cs, order)
}

/// Two lists in draw order that hold the same positions are the same list.
pub proof fn lemma_draw_order_unique(cs: Seq<EditorComponent>, r1: Seq<usize>, r2: Seq<usize>)
    requires
        in_draw_order(cs, r1),
        in_draw_order(cs, r2),
        forall|x: usize| r1.contains(x) <==> r2.contains(x),
    ensures
        r1 == r2,
    decreases r1.len(),
{
    if r1.len() == 0 {
        if r2.len() > 0 {
            assert(r2.contains(r2[0]));
        }
        assert(r1 =~= r2);
    } else {
        assert(r1.contains(r1[0]));
        let k = choose|k: int| 0 <= k < r2.len() && r2[k] == r1[0];
        assert(r2.contains(r2[0]));
        let m = choose|m: int| 0 <= m < r1.len() && r1[m] == r2[0];
        if k > 0 {
            assert(drawn_before(cs, r2[0] as int, r2[k] as int));
            if m > 0 {
                assert(drawn_before(cs, r1[0] as int, r1[m] as int));
            }
        }
        assert(r1[0] == r2[0]);
        let t1 = r1.drop_first();
        let t2 = r2.drop_first();
        assert forall|a: int, b: int| 0 <= a < b < t1.len() implies drawn_before(cs, #[trigger] t1[a] as int, #[trigger] t1[b] as int) by {
            assert(t1[a] == r1[a + 1] && t1[b] == r1[b + 1]);
        }
        assert forall|a: int, b: int| 0 <= a < b < t2.len() implies drawn_before(cs, #[trigger] t2[a] as int, #[trigger] t2[b] as int) by {
            assert(t2[a] == r2[a + 1] && t2[b] == r2[b + 1]);
        }
        assert forall|x: usize| t1.contains(x) implies t2.contains(x) by {
            let a = choose|a: int| 0 <= a < t1.len() && t1[a] == x;
            assert(r1[a + 1] == x);
            assert(drawn_before(cs, r1[0] as int, r1[a + 1] as int));
            assert(r2.contains(x));
            let b = choose|b: int| 0 <= b < r2.len() && r2[b] == x;
            assert(b != 0);
            assert(t2[b - 1] == x);
        }
        assert forall|x: usize| t2.contains(x) implies t1.contains(x) by {
            let a = choose|a: int| 0 <= a < t2.len() && t2[a] == x;
            assert(r2[a + 1] == x);
            assert(drawn_before(cs, r2[0] as int, r2[a + 1] as int));
            assert(r1.contains(x));
            let b = choose|b: int| 0 <= b < r1.len() && r1[b] == x;
            assert(b != 0);
            assert(t1[b - 1] == x);
        }
        lemma_draw_order_unique(cs, t1, t2);
        assert(r1 =~= seq![r1[0]] + t1);
        assert(r2 =~= seq![r2[0]] + t2);
    }
}

/// A frame has exactly one draw order: two lists that both meet
/// `draw_order` for the same components and position are equal.
pub proof fn law_draw_order_unique(cs: Seq<EditorComponent>, pos: int, r1: Seq<usize>, r2: Seq<usize>)
    requires
        draw_order(cs, pos, r1),
        draw_order(cs, pos, r2),
    ensures
        r1 == r2,
{
    assert forall|x: usize| r1.contains(x) <==> r2.contains(x) by {
        if r1.contains(x) {
            let k = choose|k: int| 0 <= k < r1.len() && r1[k] == x;
            assert(r1[k] < cs.len() && visible_at(cs[r1[k] as int], pos));
            assert(visible_at(cs[x as int], pos));
        }
        if r2.contains(x) {
            let k = choose|k: int| 0 <= k < r2.len() && r2[k] == x;
            assert(r2[k] < cs.len() && visible_at(cs[r2[k] as int], pos));
            assert(visible_at(cs[x as int], pos));
        }
    }
    lemma_draw_order_unique(cs, r1, r2);
}

/// The positions of the components on screen at `position`, in the order
/// they are drawn onto the frame.
pub fn components_to_draw(components: &Vec<EditorComponent>, position: ClockTime) -> (r: Vec<usize>)
    ensures
        draw_order(components@, position.nanos as int, r@),
{
    let ghost cs = components@;
    let ghost pos = position.nanos as int;
    let mut r: Vec<usize> = Vec::new();
    let mut i: usize = 0;
    while i < components.len()
        invariant
            cs == components@,
            pos == position.nanos as int,
            i <= cs.len(),
            forall|k: int| 0 <= k < r@.len() ==> (#[trigger] r@[k]) < i && visible_at(cs[r@[k] as int], pos),
            forall|j: int| 0 <= j < i && visible_at(#[trigger] cs[j], pos) ==> r@.contains(j as usize),
            in_draw_order(cs, r@),
        decreases cs.len() - i,
    {
        let c = &components[i];
        if c.start_time.nanos <= position.nanos && position.nanos - c.start_time.nanos <= c.length.nanos {
            let layer = c.layer_index;
            let mut p: usize = 0;
            while p < r.len() && components[r[p]].layer_index > layer
                invariant
                    cs == components@,
                    i < cs.len(),
                    layer == cs[i as int].layer_index,
                    p <= r@.len(),
                    forall|k: int| 0 <= k < r@.len() ==> (#[trigger] r@[k]) < i,
                    forall|q: int| 0 <= q < p ==> cs[(#[trigger] r@[q]) as int].layer_index > layer,
                decreases r@.len() - p,
            {
                p = p + 1;
            }
            let ghost old_r = r@;
            r.insert(p, i);
            proof {
                let n = r@;
                assert(n == old_r.insert(p as int, i));
                assert forall|q: int| p <= q < old_r.len() implies cs[(#[trigger] old_r[q]) as int].layer_index <= layer by {
                    if q > p {
                        assert(drawn_before(cs, old_r[p as int] as int, old_r[q] as int));
                    }
                }
                assert forall|k: int| 0 <= k < n.len() implies (#[trigger] n[k]) < i + 1 && visible_at(cs[n[k] as int], pos) by {
                    if k < p {
                        assert(n[k] == old_r[k]);
                    } else if k > p {
                        assert(n[k] == old_r[k - 1]);
                    }
                }
                assert forall|j: int| 0 <= j < i + 1 && visible_at(#[trigger] cs[j], pos) implies n.contains(j as usize) by {
                    if j == i {
                        assert(n[p as int] == i);
                    } else {
                        assert(old_r.contains(j as usize));
                        let k = choose|k: int| 0 <= k < old_r.len() && old_r[k] == j as usize;
                        if k < p {
                            assert(n[k] == old_r[k]);
                        } else {
                            assert(n[k + 1] == old_r[k]);
                        }
                    }
                }
                assert forall|a: int, b: int| 0 <= a < b < n.len() implies drawn_before(cs, #[trigger] n[a] as int, #[trigger] n[b] as int) by {
                    if a < p && b < p {
                        assert(n[a] == old_r[a] && n[b] == old_r[b]);
                    } else if a < p && b == p {
                        assert(n[a] == old_r[a]);
                    } else if a < p && b > p {
                        assert(n[a] == old_r[a] && n[b] == old_r[b - 1]);
                    } else if a == p {
                        assert(n[b] == old_r[b - 1]);
                        assert(old_r[b - 1] < i);
                    } else {
                        assert(n[a] == old_r[a - 1] && n[b] == old_r[b - 1]);
                    }
                }
            }
        } else {
            proof {
                assert(!visible_at(cs[i as int], pos));
            }
        }
        i = i + 1;
    }
    r
}

} // verus!
