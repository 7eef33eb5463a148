//! Reducing an image to a palette, by median cut.
//!
//! Album art is usually a handful of related tones, so the palette is made from
//! the colours that the image has. They are split into groups until there are
//! as many groups as the palette holds, always cutting the group that varies
//! most, and each group becomes one entry of the palette.

use vstd::prelude::*;

verus! {

/// Colour registers that are declared at most.
pub const MAX_COLOURS: usize = 256;

/// One colour, and how many pixels have it.
#[derive(Debug, Clone, Copy, PartialEq, Eq, Structural)]
pub struct Swatch {
    /// Red, green and blue in one number, red in front.
    pub code: u32,
    pub count: u64,
}

/// The number of a colour.
pub open spec fn code_of(r: u8, g: u8, b: u8) -> u32 {
    (r * 65536 + g * 256 + b) as u32
}

/// A channel of a colour: red, green or blue.
pub open spec fn channel(code: u32, c: int) -> int {
    if c == 0 {
        code as int / 65536
    } else if c == 1 {
        code as int / 256 % 256
    } else {
        code as int % 256
    }
}

/// The colours of the pixels, in order.
pub open spec fn pixels(rgb: Seq<u8>) -> Seq<u32> {
    Seq::new(rgb.len() / 3, |i: int| code_of(rgb[3 * i], rgb[3 * i + 1], rgb[3 * i + 2]))
}

fn code(r: u8, g: u8, b: u8) -> (out: u32)
    ensures
        out == code_of(r, g, b),
        out < 16777216,
{
    r as u32 * 65536 + g as u32 * 256 + b as u32
}

fn channel_of(code: u32, c: usize) -> (r: u8)
    requires
        code < 16777216,
        c < 3,
    ensures
        r == channel(code, c as int),
{
    if c == 0 {
        (code / 65536) as u8
    } else if c == 1 {
        (code / 256 % 256) as u8
    } else {
        (code % 256) as u8
    }
}

// Sorting by one channel.

/// The swatches whose channel has a value, in order.
pub open spec fn with_value(group: Seq<Swatch>, c: int, v: int) -> Seq<Swatch>
    decreases group.len(),
{
    if group.len() == 0 {
        group
    } else if channel(group.last().code, c) == v {
        with_value(group.drop_last(), c, v).push(group.last())
    } else {
        with_value(group.drop_last(), c, v)
    }
}

/// The swatches whose channel is below a value, those with a smaller one first.
pub open spec fn below(group: Seq<Swatch>, c: int, v: int) -> Seq<Swatch>
    decreases v,
{
    if v <= 0 {
        Seq::empty()
    } else {
        below(group, c, v - 1) + with_value(group, c, v - 1)
    }
}

/// A group sorted by one channel. Swatches that agree on it stay in order.
pub open spec fn by_channel(group: Seq<Swatch>, c: int) -> Seq<Swatch> {
    below(group, c, 256)
}

/// Whether every colour of a group is one.
pub open spec fn coloured(group: Seq<Swatch>) -> bool {
    forall|i: int| 0 <= i < group.len() ==> (#[trigger] group[i]).code < 16777216
}

/// Sorts a group by one channel.
fn sort_by_channel(group: &Vec<Swatch>, c: usize) -> (r: Vec<Swatch>)
    requires
        c < 3,
        coloured(group@),
    ensures
        r@ == by_channel(group@, c as int),
{
    let mut buckets: Vec<Vec<Swatch>> = Vec::new();
    while buckets.len() < 256
        invariant
            buckets@.len() <= 256,
            forall|v: int|
                0 <= v < buckets@.len() ==> (#[trigger] buckets@[v])@ == Seq::<Swatch>::empty(),
        decreases 256 - buckets.len(),
    {
        let empty: Vec<Swatch> = Vec::new();
        buckets.push(empty);
    }
    let mut i: usize = 0;
    while i < group.len()
        invariant
            i <= group@.len(),
            c < 3,
            coloured(group@),
            buckets@.len() == 256,
            forall|v: int|
                0 <= v < 256 ==> (#[trigger] buckets@[v])@ == with_value(
                    group@.take(i as int),
                    c as int,
                    v,
                ),
        decreases group.len() - i,
    {
        let swatch = group[i];
        let ghost before = buckets@;
        proof {
            assert(group@.take(i + 1).drop_last() =~= group@.take(i as int));
            assert(group@[i as int].code < 16777216);
        }
        let v: usize = channel_of(swatch.code, c) as usize;
        buckets[v].push(swatch);
        proof {
            assert forall|k: int| 0 <= k < 256 implies (#[trigger] buckets@[k])@ == with_value(
                group@.take(i + 1),
                c as int,
                k,
            ) by {
                assert(before[k]@ == with_value(group@.take(i as int), c as int, k));
            }
        }
        i += 1;
    }
    proof {
        assert(group@.take(group@.len() as int) =~= group@);
    }
    let mut r: Vec<Swatch> = Vec::new();
    let mut v: usize = 0;
    while v < 256
        invariant
            v <= 256,
            buckets@.len() == 256,
            forall|k: int|
                0 <= k < 256 ==> (#[trigger] buckets@[k])@ == with_value(group@, c as int, k),
            r@ == below(group@, c as int, v as int),
        decreases 256 - v,
    {
        proof {
            assert(buckets@[v as int]@ == with_value(group@, c as int, v as int));
        }
        let ghost before = r@;
        let mut k: usize = 0;
        while k < buckets[v].len()
            invariant
                v < 256,
                buckets@.len() == 256,
                k <= buckets@[v as int]@.len(),
                r@ =~= before + buckets@[v as int]@.take(k as int),
            decreases buckets@[v as int]@.len() - k,
        {
            r.push(buckets[v][k]);
            k += 1;
        }
        proof {
            assert(buckets@[v as int]@.take(k as int) =~= buckets@[v as int]@);
        }
        v += 1;
    }
    r
}

/// Whether a group is in order by something that its colours have.
pub open spec fn ordered(group: Seq<Swatch>, key: spec_fn(u32) -> int) -> bool {
    forall|i: int, j: int|
        0 <= i < j < group.len() ==> key((#[trigger] group[i]).code) <= key(
            (#[trigger] group[j]).code,
        )
}

proof fn lemma_with_value(group: Seq<Swatch>, c: int, v: int, key: spec_fn(u32) -> int)
    requires
        ordered(group, key),
    ensures
        ordered(with_value(group, c, v), key),
        forall|i: int|
            0 <= i < with_value(group, c, v).len() ==> {
                let s = #[trigger] with_value(group, c, v)[i];
                channel(s.code, c) == v && group.contains(s)
            },
    decreases group.len(),
{
    if group.len() > 0 {
        let init = group.drop_last();
        let part = with_value(init, c, v);
        let whole = with_value(group, c, v);
        assert(ordered(init, key)) by {
            assert forall|i: int, j: int| 0 <= i < j < init.len() implies key(
                (#[trigger] init[i]).code,
            ) <= key((#[trigger] init[j]).code) by {
                assert(init[i] == group[i] && init[j] == group[j]);
            }
        }
        lemma_with_value(init, c, v, key);
        assert forall|i: int| 0 <= i < whole.len() implies {
            let s = #[trigger] whole[i];
            channel(s.code, c) == v && group.contains(s) && (i < part.len() ==> key(s.code) <= key(
                group.last().code,
            ))
        } by {
            if i < part.len() {
                assert(whole[i] == part[i]);
                assert(init.contains(part[i]));
                let k = choose|k: int| 0 <= k < init.len() && init[k] == part[i];
                assert(group[k] == part[i]);
                assert(key(group[k].code) <= key(group[group.len() - 1].code));
            } else {
                assert(whole[i] == group[group.len() - 1]);
            }
        }
        assert forall|i: int, j: int| 0 <= i < j < whole.len() implies key(
            (#[trigger] whole[i]).code,
        ) <= key((#[trigger] whole[j]).code) by {
            assert(whole[i] == part[i]);
            if j < part.len() {
                assert(whole[j] == part[j]);
            }
        }
    }
}

/// Sorting by a channel keeps the order that there was among those that agree
/// on it.
proof fn lemma_below(group: Seq<Swatch>, c: int, n: int, key: spec_fn(u32) -> int)
    requires
        ordered(group, key),
        0 <= n <= 256,
    ensures
        forall|i: int|
            0 <= i < below(group, c, n).len() ==> {
                let s = #[trigger] below(group, c, n)[i];
                0 <= channel(s.code, c) < n && group.contains(s)
            },
        forall|i: int, j: int|
            0 <= i < j < below(group, c, n).len() ==> {
                let s = #[trigger] below(group, c, n)[i];
                let t = #[trigger] below(group, c, n)[j];
                channel(s.code, c) < channel(t.code, c) || channel(s.code, c) == channel(t.code, c)
                    && key(s.code) <= key(t.code)
            },
    decreases n,
{
    if n > 0 {
        lemma_below(group, c, n - 1, key);
        lemma_with_value(group, c, n - 1, key);
        let front = below(group, c, n - 1);
        let back = with_value(group, c, n - 1);
        let whole = below(group, c, n);
        assert(whole == front + back);
        assert forall|i: int| 0 <= i < whole.len() implies {
            let s = #[trigger] whole[i];
            0 <= channel(s.code, c) < n && group.contains(s)
        } by {
            if i < front.len() {
                assert(whole[i] == front[i]);
            } else {
                assert(whole[i] == back[i - front.len()]);
            }
        }
        assert forall|i: int, j: int| 0 <= i < j < whole.len() implies {
            let s = #[trigger] whole[i];
            let t = #[trigger] whole[j];
            channel(s.code, c) < channel(t.code, c) || channel(s.code, c) == channel(t.code, c)
                && key(s.code) <= key(t.code)
        } by {
            if j < front.len() {
                assert(whole[i] == front[i] && whole[j] == front[j]);
            } else if i < front.len() {
                assert(whole[i] == front[i] && whole[j] == back[j - front.len()]);
            } else {
                assert(whole[i] == back[i - front.len()] && whole[j] == back[j - front.len()]);
            }
        }
    }
}

proof fn lemma_value_count(group: Seq<Swatch>, c: int, v: int, s: Swatch)
    ensures
        with_value(group, c, v).to_multiset().count(s) == if channel(s.code, c) == v {
            group.to_multiset().count(s)
        } else {
            0
        },
    decreases group.len(),
{
    broadcast use vstd::seq_lib::group_to_multiset_ensures;

    if group.len() > 0 {
        let init = group.drop_last();
        lemma_value_count(init, c, v, s);
        assert(group =~= init.push(group.last()));
    }
}

proof fn lemma_below_count(group: Seq<Swatch>, c: int, n: int, s: Swatch)
    requires
        0 <= n,
    ensures
        below(group, c, n).to_multiset().count(s) == if 0 <= channel(s.code, c) < n {
            group.to_multiset().count(s)
        } else {
            0
        },
    decreases n,
{
    broadcast use vstd::seq_lib::group_to_multiset_ensures;

    if n > 0 {
        lemma_below_count(group, c, n - 1, s);
        lemma_value_count(group, c, n - 1, s);
        vstd::seq_lib::lemma_multiset_commutative(
            below(group, c, n - 1),
            with_value(group, c, n - 1),
        );
    }
}

/// Sorting moves swatches about and neither adds nor drops any.
proof fn lemma_by_channel(group: Seq<Swatch>, c: int)
    requires
        coloured(group),
        0 <= c < 3,
    ensures
        by_channel(group, c).to_multiset() == group.to_multiset(),
        by_channel(group, c).len() == group.len(),
        coloured(by_channel(group, c)),
{
    broadcast use vstd::seq_lib::group_to_multiset_ensures;

    let sorted = by_channel(group, c);
    lemma_below(group, c, 256, |x: u32| 0int);
    assert forall|s: Swatch| sorted.to_multiset().count(s) == group.to_multiset().count(s) by {
        lemma_below_count(group, c, 256, s);
        if !(0 <= channel(s.code, c) < 256) && group.to_multiset().count(s) > 0 {
            assert(group.contains(s));
            let k = choose|k: int| 0 <= k < group.len() && group[k] == s;
            assert(group[k].code < 16777216);
        }
    }
    assert(sorted.to_multiset() =~= group.to_multiset());
    assert(sorted.len() == sorted.to_multiset().len());
    assert(group.len() == group.to_multiset().len());
    assert forall|i: int| 0 <= i < sorted.len() implies (#[trigger] sorted[i]).code < 16777216 by {
        assert(group.contains(sorted[i]));
        let k = choose|k: int| 0 <= k < group.len() && group[k] == sorted[i];
        assert(group[k].code < 16777216);
    }
}

// Counting the colours of an image.

/// One swatch for each pixel.
pub open spec fn singles(codes: Seq<u32>) -> Seq<Swatch> {
    Seq::new(codes.len(), |i: int| Swatch { code: codes[i], count: 1 })
}

/// The pixels of an image in the order of their colours.
pub open spec fn in_order(codes: Seq<u32>) -> Seq<Swatch> {
    by_channel(by_channel(by_channel(singles(codes), 2), 1), 0)
}

/// Swatches of one colour that stand side by side, put together.
pub open spec fn tallied(group: Seq<Swatch>) -> Seq<Swatch>
    decreases group.len(),
{
    if group.len() == 0 {
        group
    } else {
        let before = tallied(group.drop_last());
        let s = group.last();
        if before.len() > 0 && before.last().code == s.code {
            before.drop_last().push(
                Swatch { code: s.code, count: (before.last().count + s.count) as u64 },
            )
        } else {
            before.push(s)
        }
    }
}

/// The colours of an image and how many pixels have each, in the order of the
/// colours.
pub open spec fn histogram(rgb: Seq<u8>) -> Seq<Swatch> {
    tallied(in_order(pixels(rgb)))
}

/// Whether each colour is above the one before.
pub open spec fn rising(group: Seq<Swatch>) -> bool {
    forall|i: int, j: int|
        0 <= i < j < group.len() ==> (#[trigger] group[i]).code < (#[trigger] group[j]).code
}

/// Whether a group has a colour.
pub open spec fn owns(group: Seq<Swatch>, code: u32) -> bool {
    exists|i: int| 0 <= i < group.len() && (#[trigger] group[i]).code == code
}

/// How many pixels a group stands for.
pub open spec fn weight(group: Seq<Swatch>) -> nat
    decreases group.len(),
{
    if group.len() == 0 {
        0
    } else {
        weight(group.drop_last()) + group.last().count as nat
    }
}

/// How many pixels of a group have a colour.
pub open spec fn weight_of(group: Seq<Swatch>, code: u32) -> nat
    decreases group.len(),
{
    if group.len() == 0 {
        0
    } else {
        weight_of(group.drop_last(), code) + if group.last().code == code {
            group.last().count as nat
        } else {
            0
        }
    }
}

proof fn lemma_in_order(codes: Seq<u32>)
    requires
        forall|i: int| 0 <= i < codes.len() ==> (#[trigger] codes[i]) < 16777216,
    ensures
        in_order(codes).to_multiset() == singles(codes).to_multiset(),
        in_order(codes).len() == codes.len(),
        coloured(in_order(codes)),
        coloured(singles(codes)),
        coloured(by_channel(singles(codes), 2)),
        coloured(by_channel(by_channel(singles(codes), 2), 1)),
        ordered(in_order(codes), |x: u32| x as int),
{
    let zero = |x: u32| 0int;
    let blue = |x: u32| channel(x, 2);
    let low = |x: u32| channel(x, 1) * 256 + channel(x, 2);
    let whole = |x: u32| x as int;
    let a = singles(codes);
    assert(coloured(a));
    let b = by_channel(a, 2);
    let c = by_channel(b, 1);
    let d = by_channel(c, 0);
    lemma_by_channel(a, 2);
    lemma_by_channel(b, 1);
    lemma_by_channel(c, 0);
    lemma_below(a, 2, 256, zero);
    assert(ordered(b, blue));
    lemma_below(b, 1, 256, blue);
    assert(ordered(c, low)) by {
        assert forall|i: int, j: int| 0 <= i < j < c.len() implies low((#[trigger] c[i]).code)
            <= low((#[trigger] c[j]).code) by {
            assert(c[i].code < 16777216 && c[j].code < 16777216);
        }
    }
    lemma_below(c, 0, 256, low);
    assert(ordered(d, whole)) by {
        assert forall|i: int, j: int| 0 <= i < j < d.len() implies whole((#[trigger] d[i]).code)
            <= whole((#[trigger] d[j]).code) by {
            let x = d[i].code;
            let y = d[j].code;
            assert(x < 16777216 && y < 16777216);
            assert(x as int == channel(x, 0) * 65536 + low(x));
            assert(y as int == channel(y, 0) * 65536 + low(y));
            assert(low(x) < 65536 && low(y) < 65536);
        }
    }
}

proof fn lemma_tallied(group: Seq<Swatch>)
    requires
        coloured(group),
        ordered(group, |x: u32| x as int),
        weight(group) <= u64::MAX,
        forall|i: int| 0 <= i < group.len() ==> (#[trigger] group[i]).count > 0,
    ensures
        coloured(tallied(group)),
        rising(tallied(group)),
        weight(tallied(group)) == weight(group),
        forall|i: int| 0 <= i < tallied(group).len() ==> (#[trigger] tallied(group)[i]).count > 0,
        tallied(group).len() > 0 <==> group.len() > 0,
        group.len() > 0 ==> tallied(group).last().code == group.last().code,
        forall|code: u32| #[trigger]
            weight_of(tallied(group), code) == weight_of(group, code),
    decreases group.len(),
{
    if group.len() > 0 {
        let init = group.drop_last();
        let s = group.last();
        let whole = |x: u32| x as int;
        assert(ordered(init, whole)) by {
            assert forall|i: int, j: int| 0 <= i < j < init.len() implies whole(
                (#[trigger] init[i]).code,
            ) <= whole((#[trigger] init[j]).code) by {
                assert(init[i] == group[i] && init[j] == group[j]);
            }
        }
        assert forall|i: int| 0 <= i < init.len() implies (#[trigger] init[i]).count > 0 by {
            assert(init[i] == group[i]);
        }
        lemma_tallied(init);
        let before = tallied(init);
        let after = tallied(group);
        if init.len() > 0 {
            assert(whole(group[group.len() - 2].code) <= whole(group[group.len() - 1].code));
            assert(init.last() == group[group.len() - 2]);
        }
        assert(s == group[group.len() - 1]);
        if before.len() > 0 && before.last().code == s.code {
            let merged = Swatch { code: s.code, count: (before.last().count + s.count) as u64 };
            assert(before == before.drop_last().push(before.last()));
            assert(weight(before) == weight(before.drop_last()) + before.last().count);
            assert(after.drop_last() =~= before.drop_last());
            assert(rising(after)) by {
                assert forall|i: int, j: int| 0 <= i < j < after.len() implies (
                #[trigger] after[i]).code < (#[trigger] after[j]).code by {
                    assert(before[i].code < before[j].code);
                }
            }
            assert forall|i: int| 0 <= i < after.len() implies (#[trigger] after[i]).count > 0
                && after[i].code < 16777216 by {
                if i < after.len() - 1 {
                    assert(after[i] == before[i]);
                }
            }
            assert forall|code: u32| #[trigger] weight_of(after, code) == weight_of(
                group,
                code,
            ) by {
                assert(weight_of(before, code) == weight_of(init, code));
            }
        } else {
            assert(after.drop_last() =~= before);
            assert(rising(after)) by {
                assert forall|i: int, j: int| 0 <= i < j < after.len() implies (
                #[trigger] after[i]).code < (#[trigger] after[j]).code by {
                    if j < before.len() {
                        assert(before[i].code < before[j].code);
                    } else if i < before.len() - 1 {
                        assert(before[i].code < before[before.len() - 1].code);
                    }
                }
            }
            assert forall|i: int| 0 <= i < after.len() implies (#[trigger] after[i]).count > 0
                && after[i].code < 16777216 by {
                if i < after.len() - 1 {
                    assert(after[i] == before[i]);
                }
            }
            assert forall|code: u32| #[trigger] weight_of(after, code) == weight_of(
                group,
                code,
            ) by {
                assert(weight_of(before, code) == weight_of(init, code));
            }
        }
    }
}

proof fn lemma_weight_of_ones(group: Seq<Swatch>)
    requires
        forall|i: int| 0 <= i < group.len() ==> (#[trigger] group[i]).count == 1,
    ensures
        weight(group) == group.len(),
    decreases group.len(),
{
    if group.len() > 0 {
        assert(group.last() == group[group.len() - 1]);
        assert forall|i: int| 0 <= i < group.drop_last().len() implies (
        #[trigger] group.drop_last()[i]).count == 1 by {
            assert(group.drop_last()[i] == group[i]);
        }
        lemma_weight_of_ones(group.drop_last());
    }
}

proof fn lemma_weight_has(group: Seq<Swatch>, code: u32)
    requires
        forall|i: int| 0 <= i < group.len() ==> (#[trigger] group[i]).count > 0,
    ensures
        weight_of(group, code) > 0 <==> owns(group, code),
    decreases group.len(),
{
    if group.len() > 0 {
        let init = group.drop_last();
        assert forall|i: int| 0 <= i < init.len() implies (#[trigger] init[i]).count > 0 by {
            assert(init[i] == group[i]);
        }
        lemma_weight_has(init, code);
        assert(group.last() == group[group.len() - 1]);
        assert(group.last().count > 0);
        if owns(init, code) {
            let i = choose|i: int| 0 <= i < init.len() && (#[trigger] init[i]).code == code;
            assert(group[i].code == code);
        }
        if owns(group, code) && group.last().code != code {
            let i = choose|i: int| 0 <= i < group.len() && (#[trigger] group[i]).code == code;
            assert(init[i].code == code);
        }
    }
}

/// What the colours of an image in order are like.
proof fn lemma_ordered_pixels(codes: Seq<u32>)
    requires
        forall|i: int| 0 <= i < codes.len() ==> (#[trigger] codes[i]) < 16777216,
    ensures
        forall|i: int| 0 <= i < in_order(codes).len() ==> (#[trigger] in_order(codes)[i]).count == 1,
        forall|i: int| 0 <= i < codes.len() ==> owns(in_order(codes), #[trigger] codes[i]),
        forall|code: u32| owns(in_order(codes), code) ==> codes.contains(code),
{
    broadcast use vstd::seq_lib::group_to_multiset_ensures;

    lemma_in_order(codes);
    let a = singles(codes);
    let d = in_order(codes);
    assert forall|i: int| 0 <= i < d.len() implies (#[trigger] d[i]).count == 1 && codes.contains(
        d[i].code,
    ) by {
        assert(d.contains(d[i]));
        assert(d.to_multiset().count(d[i]) > 0);
        assert(a.contains(d[i]));
        let k = choose|k: int| 0 <= k < a.len() && a[k] == d[i];
        assert(codes[k] == d[i].code);
    }
    assert forall|i: int| 0 <= i < codes.len() implies owns(d, #[trigger] codes[i]) by {
        assert(a[i].code == codes[i]);
        assert(a.contains(a[i]));
        assert(a.to_multiset().count(a[i]) > 0);
        assert(d.contains(a[i]));
        let k = choose|k: int| 0 <= k < d.len() && d[k] == a[i];
        assert(d[k].code == codes[i]);
    }
    assert forall|code: u32| owns(d, code) implies codes.contains(code) by {
        let i = choose|i: int| 0 <= i < d.len() && (#[trigger] d[i]).code == code;
        assert(codes.contains(d[i].code));
    }
}

/// What the histogram of an image is like.
pub proof fn lemma_histogram(rgb: Seq<u8>)
    requires
        rgb.len() <= usize::MAX,
    ensures
        coloured(histogram(rgb)),
        rising(histogram(rgb)),
        weight(histogram(rgb)) == pixels(rgb).len(),
        forall|i: int| 0 <= i < histogram(rgb).len() ==> (#[trigger] histogram(rgb)[i]).count > 0,
        forall|i: int|
            0 <= i < pixels(rgb).len() ==> owns(histogram(rgb), #[trigger] pixels(rgb)[i]),
        forall|code: u32| owns(histogram(rgb), code) ==> pixels(rgb).contains(code),
{
    let codes = pixels(rgb);
    let d = in_order(codes);
    lemma_in_order(codes);
    lemma_ordered_pixels(codes);
    lemma_weight_of_ones(d);
    lemma_tallied(d);
    let h = tallied(d);
    assert forall|code: u32| owns(h, code) <==> owns(d, code) by {
        lemma_weight_has(h, code);
        lemma_weight_has(d, code);
        assert(weight_of(h, code) == weight_of(d, code));
    }
}

/// The colours of an image and how many pixels have each.
fn count_colours(rgb: &[u8]) -> (r: Vec<Swatch>)
    ensures
        r@ == histogram(rgb@),
{
    let len: usize = rgb.len();
    let n: usize = len / 3;
    let mut all: Vec<Swatch> = Vec::new();
    while all.len() < n
        invariant
            all@.len() <= n,
            n == len / 3,
            len == rgb@.len(),
            all@ =~= singles(pixels(rgb@)).take(all@.len() as int),
            coloured(all@),
        decreases n - all.len(),
    {
        let i: usize = all.len();
        let at: usize = 3 * i;
        all.push(Swatch { code: code(rgb[at], rgb[at + 1], rgb[at + 2]), count: 1 });
    }
    proof {
        assert(all@ =~= singles(pixels(rgb@)));
        lemma_in_order(pixels(rgb@));
        lemma_ordered_pixels(pixels(rgb@));
        lemma_weight_of_ones(in_order(pixels(rgb@)));
    }
    let blue = sort_by_channel(&all, 2);
    let green = sort_by_channel(&blue, 1);
    let sorted = sort_by_channel(&green, 0);
    let ghost d = in_order(pixels(rgb@));
    let total: usize = sorted.len();
    let mut r: Vec<Swatch> = Vec::new();
    let mut i: usize = 0;
    while i < total
        invariant
            i <= total,
            total == sorted@.len(),
            sorted@ == d,
            forall|k: int| 0 <= k < d.len() ==> (#[trigger] d[k]).count == 1,
            r@ == tallied(d.take(i as int)),
            forall|k: int| 0 <= k < r@.len() ==> (#[trigger] r@[k]).count <= i,
        decreases total - i,
    {
        let swatch = sorted[i];
        proof {
            assert(d.take(i + 1).drop_last() =~= d.take(i as int));
            assert(d.take(i + 1).last() == d[i as int]);
        }
        let last: usize = r.len();
        if last > 0 && r[last - 1].code == swatch.code {
            let before = r[last - 1];
            let _ = r.pop();
            r.push(Swatch { code: swatch.code, count: before.count + swatch.count });
        } else {
            r.push(swatch);
        }
        i += 1;
    }
    proof {
        assert(d.take(d.len() as int) =~= d);
    }
    r
}

// Median cut.

/// The highest value of a channel in a group, and zero in an empty one.
pub open spec fn highest(group: Seq<Swatch>, c: int) -> int
    decreases group.len(),
{
    if group.len() == 0 {
        0
    } else {
        let before = highest(group.drop_last(), c);
        let v = channel(group.last().code, c);
        if group.len() > 1 && before > v {
            before
        } else {
            v
        }
    }
}

/// The lowest value of a channel in a group, and zero in an empty one.
pub open spec fn lowest(group: Seq<Swatch>, c: int) -> int
    decreases group.len(),
{
    if group.len() == 0 {
        0
    } else {
        let before = lowest(group.drop_last(), c);
        let v = channel(group.last().code, c);
        if group.len() > 1 && before < v {
            before
        } else {
            v
        }
    }
}

/// How much a group varies on a channel.
pub open spec fn spread(group: Seq<Swatch>, c: int) -> int {
    highest(group, c) - lowest(group, c)
}

/// The channel that a group varies most on; of equal ones the last.
pub open spec fn widest(group: Seq<Swatch>) -> int {
    let r = spread(group, 0);
    let g = spread(group, 1);
    let b = spread(group, 2);
    if b >= r && b >= g {
        2
    } else if g >= r {
        1
    } else {
        0
    }
}

/// The group to cut: of those that have more than one colour the one that
/// varies most on any channel, and of equal ones the last.
pub open spec fn cut_next(boxes: Seq<Seq<Swatch>>) -> Option<int>
    decreases boxes.len(),
{
    if boxes.len() == 0 {
        None
    } else {
        let last = boxes.last();
        match cut_next(boxes.drop_last()) {
            Some(i) => if last.len() > 1 && spread(last, widest(last)) >= spread(
                boxes[i],
                widest(boxes[i]),
            ) {
                Some(boxes.len() - 1)
            } else {
                Some(i)
            },
            None => if last.len() > 1 {
                Some(boxes.len() - 1)
            } else {
                None
            },
        }
    }
}

/// The first place of a group up to which, that place included, more than `half`
/// of its pixels stand.
pub open spec fn passes(group: Seq<Swatch>, half: nat, i: int) -> int
    decreases group.len() - i,
{
    if i < 0 || i >= group.len() {
        i
    } else if weight(group.take(i + 1)) > half {
        i
    } else {
        passes(group, half, i + 1)
    }
}

/// Where a sorted group is cut: at the weighted median, with something on
/// either side.
pub open spec fn median(group: Seq<Swatch>) -> int {
    let i = passes(group, weight(group) / 2, 0);
    if i < 1 || i >= group.len() {
        1
    } else {
        i
    }
}

/// The groups without one: the last takes its place.
pub open spec fn taken_out(boxes: Seq<Seq<Swatch>>, k: int) -> Seq<Seq<Swatch>> {
    boxes.update(k, boxes.last()).drop_last()
}

/// The groups after one of them has been cut.
pub open spec fn cut(boxes: Seq<Seq<Swatch>>, k: int) -> Seq<Seq<Swatch>> {
    let sorted = by_channel(boxes[k], widest(boxes[k]));
    let at = median(sorted);
    taken_out(boxes, k).push(sorted.take(at)).push(sorted.skip(at))
}

proof fn lemma_cut_next(boxes: Seq<Seq<Swatch>>)
    ensures
        cut_next(boxes) matches Some(i) ==> 0 <= i < boxes.len() && boxes[i].len() > 1,
        cut_next(boxes) is None ==> forall|i: int|
            0 <= i < boxes.len() ==> (#[trigger] boxes[i]).len() <= 1,
    decreases boxes.len(),
{
    if boxes.len() > 0 {
        lemma_cut_next(boxes.drop_last());
        if cut_next(boxes) is None {
            assert forall|i: int| 0 <= i < boxes.len() implies (#[trigger] boxes[i]).len() <= 1 by {
                if i < boxes.len() - 1 {
                    assert(boxes.drop_last()[i].len() <= 1);
                }
            }
        }
    }
}

/// The groups once there are as many as the palette holds, or none has two
/// colours left.
pub open spec fn cuts(boxes: Seq<Seq<Swatch>>) -> Seq<Seq<Swatch>>
    decreases MAX_COLOURS - boxes.len(),
    when boxes.len() <= MAX_COLOURS
    via cuts_terminate
{
    if boxes.len() < MAX_COLOURS && cut_next(boxes) is Some {
        cuts(cut(boxes, cut_next(boxes)->0))
    } else {
        boxes
    }
}

#[via_fn]
proof fn cuts_terminate(boxes: Seq<Seq<Swatch>>) {
    lemma_cut_next(boxes);
}

/// The groups that the colours of an image are split into.
pub open spec fn groups(rgb: Seq<u8>) -> Seq<Seq<Swatch>> {
    cuts(seq![histogram(rgb)])
}

/// What the groups hold.
pub open spec fn contents(boxes: Seq<Vec<Swatch>>) -> Seq<Seq<Swatch>> {
    Seq::new(boxes.len(), |i: int| boxes[i]@)
}

fn highest_of(group: &Vec<Swatch>, c: usize) -> (r: u8)
    requires
        c < 3,
        coloured(group@),
    ensures
        r == highest(group@, c as int),
{
    let mut best: u8 = 0;
    let mut i: usize = 0;
    while i < group.len()
        invariant
            i <= group@.len(),
            c < 3,
            coloured(group@),
            best == highest(group@.take(i as int), c as int),
        decreases group.len() - i,
    {
        proof {
            assert(group@.take(i + 1).drop_last() =~= group@.take(i as int));
            assert(group@[i as int].code < 16777216);
        }
        let v: u8 = channel_of(group[i].code, c);
        if i == 0 || best <= v {
            best = v;
        }
        i += 1;
    }
    proof {
        assert(group@.take(group@.len() as int) =~= group@);
    }
    best
}

fn lowest_of(group: &Vec<Swatch>, c: usize) -> (r: u8)
    requires
        c < 3,
        coloured(group@),
    ensures
        r == lowest(group@, c as int),
{
    let mut best: u8 = 0;
    let mut i: usize = 0;
    while i < group.len()
        invariant
            i <= group@.len(),
            c < 3,
            coloured(group@),
            best == lowest(group@.take(i as int), c as int),
        decreases group.len() - i,
    {
        proof {
            assert(group@.take(i + 1).drop_last() =~= group@.take(i as int));
            assert(group@[i as int].code < 16777216);
        }
        let v: u8 = channel_of(group[i].code, c);
        if i == 0 || best >= v {
            best = v;
        }
        i += 1;
    }
    proof {
        assert(group@.take(group@.len() as int) =~= group@);
    }
    best
}

proof fn lemma_spread(group: Seq<Swatch>, c: int)
    requires
        0 <= c < 3,
        coloured(group),
    ensures
        0 <= lowest(group, c) <= highest(group, c) < 256,
        forall|i: int|
            0 <= i < group.len() ==> lowest(group, c) <= channel((#[trigger] group[i]).code, c)
                <= highest(group, c),
    decreases group.len(),
{
    if group.len() > 0 {
        let init = group.drop_last();
        assert forall|i: int| 0 <= i < init.len() implies (#[trigger] init[i]).code < 16777216 by {
            assert(init[i] == group[i]);
        }
        lemma_spread(init, c);
        assert(group.last() == group[group.len() - 1]);
        assert(group.last().code < 16777216);
        assert forall|i: int| 0 <= i < group.len() implies lowest(group, c) <= channel(
            (#[trigger] group[i]).code,
            c,
        ) <= highest(group, c) by {
            if i < init.len() {
                assert(init[i] == group[i]);
            }
        }
    }
}

/// The channel that a group varies most on, and by how much.
fn widest_channel(group: &Vec<Swatch>) -> (r: (usize, u8))
    requires
        coloured(group@),
    ensures
        r.0 == widest(group@),
        r.0 < 3,
        r.1 == spread(group@, widest(group@)),
{
    proof {
        lemma_spread(group@, 0);
        lemma_spread(group@, 1);
        lemma_spread(group@, 2);
    }
    let red: u8 = highest_of(group, 0) - lowest_of(group, 0);
    let green: u8 = highest_of(group, 1) - lowest_of(group, 1);
    let blue: u8 = highest_of(group, 2) - lowest_of(group, 2);
    if blue >= red && blue >= green {
        (2, blue)
    } else if green >= red {
        (1, green)
    } else {
        (0, red)
    }
}

/// The group to cut.
fn find_cut(boxes: &Vec<Vec<Swatch>>) -> (r: Option<(usize, usize)>)
    requires
        forall|i: int| 0 <= i < boxes@.len() ==> coloured((#[trigger] boxes@[i])@),
    ensures
        match r {
            Some((i, c)) => cut_next(contents(boxes@)) == Some(i as int) && i < boxes@.len() && c
                == widest(boxes@[i as int]@) && c < 3,
            None => cut_next(contents(boxes@)) is None,
        },
{
    let ghost all = contents(boxes@);
    let mut best: Option<(usize, usize)> = None;
    let mut most: u8 = 0;
    let mut i: usize = 0;
    while i < boxes.len()
        invariant
            i <= boxes@.len(),
            all == contents(boxes@),
            forall|k: int| 0 <= k < boxes@.len() ==> coloured((#[trigger] boxes@[k])@),
            match best {
                Some((k, c)) => cut_next(all.take(i as int)) == Some(k as int) && k < i && c
                    == widest(boxes@[k as int]@) && c < 3 && most == spread(
                    boxes@[k as int]@,
                    widest(boxes@[k as int]@),
                ),
                None => cut_next(all.take(i as int)) is None,
            },
        decreases boxes.len() - i,
    {
        proof {
            assert(all.take(i + 1).drop_last() =~= all.take(i as int));
            assert(all.take(i + 1).last() == boxes@[i as int]@);
            assert(coloured(boxes@[i as int]@));
            if let Some((k, c)) = best {
                assert(all.take(i + 1)[k as int] == boxes@[k as int]@);
            }
        }
        if boxes[i].len() > 1 {
            let (c, spread) = widest_channel(&boxes[i]);
            if best.is_none() || spread >= most {
                best = Some((i, c));
                most = spread;
            }
        }
        i += 1;
    }
    proof {
        assert(all.take(all.len() as int) =~= all);
    }
    best
}

proof fn lemma_weight_take(group: Seq<Swatch>, n: int)
    requires
        0 <= n <= group.len(),
    ensures
        weight(group.take(n)) <= weight(group),
    decreases group.len() - n,
{
    if n < group.len() {
        lemma_weight_take(group, n + 1);
        assert(group.take(n + 1).drop_last() =~= group.take(n));
    } else {
        assert(group.take(n) =~= group);
    }
}

fn weigh(group: &Vec<Swatch>) -> (r: u64)
    requires
        weight(group@) <= u64::MAX,
    ensures
        r == weight(group@),
{
    let mut sum: u64 = 0;
    let mut i: usize = 0;
    while i < group.len()
        invariant
            i <= group@.len(),
            weight(group@) <= u64::MAX,
            sum == weight(group@.take(i as int)),
        decreases group.len() - i,
    {
        proof {
            assert(group@.take(i + 1).drop_last() =~= group@.take(i as int));
            lemma_weight_take(group@, i + 1);
        }
        sum = sum + group[i].count;
        i += 1;
    }
    proof {
        assert(group@.take(group@.len() as int) =~= group@);
    }
    sum
}

/// Where a sorted group is cut.
fn find_median(group: &Vec<Swatch>) -> (r: usize)
    requires
        weight(group@) <= u64::MAX,
        group@.len() > 1,
    ensures
        r == median(group@),
        1 <= r < group@.len(),
{
    let len: usize = group.len();
    let half: u64 = weigh(group) / 2;
    let mut running: u64 = 0;
    let mut i: usize = 0;
    while i < len
        invariant
            i <= len == group@.len(),
            len > 1,
            weight(group@) <= u64::MAX,
            half == weight(group@) / 2,
            running == weight(group@.take(i as int)),
            passes(group@, half as nat, 0) == passes(group@, half as nat, i as int),
        decreases len - i,
    {
        proof {
            assert(group@.take(i + 1).drop_last() =~= group@.take(i as int));
            lemma_weight_take(group@, i + 1);
        }
        running = running + group[i].count;
        if running > half {
            return if i < 1 {
                1
            } else {
                i
            };
        }
        i += 1;
    }
    1
}

/// The groups one after the other.
pub open spec fn flat(boxes: Seq<Seq<Swatch>>) -> Seq<Swatch>
    decreases boxes.len(),
{
    if boxes.len() == 0 {
        Seq::empty()
    } else {
        flat(boxes.drop_last()) + boxes.last()
    }
}

proof fn lemma_flat_update(boxes: Seq<Seq<Swatch>>, k: int, group: Seq<Swatch>, s: Swatch)
    requires
        0 <= k < boxes.len(),
    ensures
        flat(boxes.update(k, group)).to_multiset().count(s) + boxes[k].to_multiset().count(s)
            == flat(boxes).to_multiset().count(s) + group.to_multiset().count(s),
    decreases boxes.len(),
{
    broadcast use vstd::seq_lib::group_to_multiset_ensures;

    let init = boxes.drop_last();
    let after = boxes.update(k, group);
    vstd::seq_lib::lemma_multiset_commutative(flat(init), boxes.last());
    vstd::seq_lib::lemma_multiset_commutative(flat(after.drop_last()), after.last());
    if k < boxes.len() - 1 {
        lemma_flat_update(init, k, group, s);
        assert(after.drop_last() =~= init.update(k, group));
    } else {
        assert(after.drop_last() =~= init);
    }
}

/// Cutting a group moves colours about and neither adds nor drops any.
proof fn lemma_cut(boxes: Seq<Seq<Swatch>>, k: int)
    requires
        0 <= k < boxes.len(),
        boxes[k].len() > 1,
        forall|i: int| 0 <= i < boxes.len() ==> coloured(#[trigger] boxes[i]),
    ensures
        cut(boxes, k).len() == boxes.len() + 1,
        flat(cut(boxes, k)).to_multiset() == flat(boxes).to_multiset(),
        forall|i: int| 0 <= i < cut(boxes, k).len() ==> coloured(#[trigger] cut(boxes, k)[i]),
        (forall|i: int| 0 <= i < boxes.len() ==> (#[trigger] boxes[i]).len() > 0) ==> (forall|i: int|
            0 <= i < cut(boxes, k).len() ==> (#[trigger] cut(boxes, k)[i]).len() > 0),
{
    broadcast use vstd::seq_lib::group_to_multiset_ensures;

    let c = widest(boxes[k]);
    let sorted = by_channel(boxes[k], c);
    lemma_by_channel(boxes[k], c);
    let at = median(sorted);
    let left = sorted.take(at);
    let right = sorted.skip(at);
    let rest = taken_out(boxes, k);
    let after = cut(boxes, k);
    assert(after.drop_last() =~= rest.push(left));
    assert(after.drop_last().drop_last() =~= rest);
    assert(left + right =~= sorted);
    vstd::seq_lib::lemma_multiset_commutative(left, right);
    vstd::seq_lib::lemma_multiset_commutative(flat(rest), left);
    vstd::seq_lib::lemma_multiset_commutative(flat(rest) + left, right);
    let moved = boxes.update(k, boxes.last());
    assert(rest == moved.drop_last());
    vstd::seq_lib::lemma_multiset_commutative(flat(rest), moved.last());
    assert forall|s: Swatch| flat(after).to_multiset().count(s) == flat(boxes).to_multiset().count(
        s,
    ) by {
        lemma_flat_update(boxes, k, boxes.last(), s);
        assert(moved.last() == boxes.last());
        assert(flat(moved) == flat(rest) + moved.last());
        assert(flat(moved).to_multiset().count(s) == flat(rest).to_multiset().count(s)
            + boxes.last().to_multiset().count(s));
        assert(flat(after) == flat(rest.push(left)) + right);
        assert(flat(rest.push(left)) == flat(rest) + left);
        assert(flat(after).to_multiset().count(s) == flat(rest).to_multiset().count(s)
            + left.to_multiset().count(s) + right.to_multiset().count(s));
        assert((left + right).to_multiset().count(s) == left.to_multiset().count(s)
            + right.to_multiset().count(s));
    }
    assert(flat(after).to_multiset() =~= flat(boxes).to_multiset());
    assert forall|i: int| 0 <= i < after.len() implies coloured(#[trigger] after[i]) by {
        if i < rest.len() {
            assert(after[i] == moved[i]);
            assert(coloured(boxes[i]) && coloured(boxes[boxes.len() - 1]));
        } else if i == rest.len() {
            assert(after[i] == left);
            assert forall|j: int| 0 <= j < left.len() implies (#[trigger] left[j]).code < 16777216 by {
                assert(left[j] == sorted[j]);
            }
        } else {
            assert(after[i] == right);
            assert forall|j: int| 0 <= j < right.len() implies (#[trigger] right[j]).code
                < 16777216 by {
                assert(right[j] == sorted[j + at]);
            }
        }
    }
    if forall|i: int| 0 <= i < boxes.len() ==> (#[trigger] boxes[i]).len() > 0 {
        assert forall|i: int| 0 <= i < after.len() implies (#[trigger] after[i]).len() > 0 by {
            if i < rest.len() {
                assert(after[i] == moved[i]);
                assert(boxes[i].len() > 0 && boxes[boxes.len() - 1].len() > 0);
            }
        }
    }
}

proof fn lemma_weight_sum(a: Seq<Swatch>, b: Seq<Swatch>)
    ensures
        weight(a + b) == weight(a) + weight(b),
    decreases b.len(),
{
    if b.len() == 0 {
        assert(a + b =~= a);
    } else {
        assert((a + b).drop_last() =~= a + b.drop_last());
        lemma_weight_sum(a, b.drop_last());
    }
}

proof fn lemma_value_weight(group: Seq<Swatch>, c: int, v: int)
    ensures
        group.len() > 0 ==> weight(with_value(group, c, v)) == weight(
            with_value(group.drop_last(), c, v),
        ) + if channel(group.last().code, c) == v {
            group.last().count as nat
        } else {
            0
        },
{
    if group.len() > 0 && channel(group.last().code, c) == v {
        let part = with_value(group.drop_last(), c, v);
        assert(part.push(group.last()).drop_last() =~= part);
    }
}

proof fn lemma_below_weight(group: Seq<Swatch>, c: int, n: int)
    requires
        group.len() > 0,
        0 <= n,
    ensures
        weight(below(group, c, n)) == weight(below(group.drop_last(), c, n)) + if 0 <= channel(
            group.last().code,
            c,
        ) < n {
            group.last().count as nat
        } else {
            0
        },
    decreases n,
{
    if n > 0 {
        lemma_below_weight(group, c, n - 1);
        lemma_value_weight(group, c, n - 1);
        lemma_weight_sum(below(group, c, n - 1), with_value(group, c, n - 1));
        lemma_weight_sum(
            below(group.drop_last(), c, n - 1),
            with_value(group.drop_last(), c, n - 1),
        );
    }
}

proof fn lemma_sorted_weight(group: Seq<Swatch>, c: int)
    requires
        coloured(group),
        0 <= c < 3,
    ensures
        weight(by_channel(group, c)) == weight(group),
    decreases group.len(),
{
    if group.len() == 0 {
        lemma_by_channel(group, c);
        assert(by_channel(group, c) =~= group);
    } else {
        let init = group.drop_last();
        assert forall|i: int| 0 <= i < init.len() implies (#[trigger] init[i]).code < 16777216 by {
            assert(init[i] == group[i]);
        }
        lemma_sorted_weight(init, c);
        lemma_below_weight(group, c, 256);
        assert(group.last() == group[group.len() - 1]);
        assert(group.last().code < 16777216);
    }
}

/// Splits the colours of an image into groups.
fn median_cut(colours: Vec<Swatch>) -> (r: Vec<Vec<Swatch>>)
    requires
        coloured(colours@),
        weight(colours@) <= u64::MAX,
    ensures
        contents(r@) == cuts(seq![colours@]),
        r@.len() <= MAX_COLOURS,
        forall|i: int| 0 <= i < r@.len() ==> weight((#[trigger] r@[i])@) <= u64::MAX,
{
    let ghost first = seq![colours@];
    let mut boxes: Vec<Vec<Swatch>> = Vec::new();
    boxes.push(colours);
    proof {
        assert(contents(boxes@) =~= first);
    }
    while boxes.len() < MAX_COLOURS
        invariant_except_break
            1 <= boxes@.len() <= MAX_COLOURS,
            forall|i: int| 0 <= i < boxes@.len() ==> coloured((#[trigger] boxes@[i])@),
            forall|i: int| 0 <= i < boxes@.len() ==> weight((#[trigger] boxes@[i])@) <= u64::MAX,
            cuts(contents(boxes@)) == cuts(first),
        ensures
            contents(boxes@) == cuts(first),
            boxes@.len() <= MAX_COLOURS,
            forall|i: int| 0 <= i < boxes@.len() ==> weight((#[trigger] boxes@[i])@) <= u64::MAX,
        decreases MAX_COLOURS - boxes.len(),
    {
        let ghost before = contents(boxes@);
        let ghost held = boxes@;
        let (k, c) = match find_cut(&boxes) {
            Some(found) => found,
            None => {
                break;
            },
        };
        proof {
            lemma_cut_next(before);
            assert forall|i: int| 0 <= i < before.len() implies coloured(#[trigger] before[i]) by {
                assert(coloured(held[i]@));
            }
            assert(coloured(held[k as int]@) && weight(held[k as int]@) <= u64::MAX);
            lemma_cut(before, k as int);
            lemma_by_channel(held[k as int]@, c as int);
            lemma_sorted_weight(held[k as int]@, c as int);
        }
        let group = boxes.swap_remove(k);
        let mut left = sort_by_channel(&group, c);
        let ghost sorted = left@;
        let at: usize = find_median(&left);
        let right = left.split_off(at);
        boxes.push(left);
        boxes.push(right);
        proof {
            assert(sorted.take(at as int) + sorted.skip(at as int) =~= sorted);
            lemma_weight_sum(sorted.take(at as int), sorted.skip(at as int));
            assert(left@ =~= sorted.take(at as int));
            assert(right@ =~= sorted.skip(at as int));
            assert(contents(boxes@) =~= cut(before, k as int));
            assert forall|i: int| 0 <= i < boxes@.len() implies coloured((#[trigger] boxes@[i])@)
                && weight(boxes@[i]@) <= u64::MAX by {
                assert(contents(boxes@)[i] == cut(before, k as int)[i]);
                if i < held.len() - 1 {
                    if i == k {
                        assert(boxes@[i] == held[held.len() - 1]);
                    } else {
                        assert(boxes@[i] == held[i]);
                    }
                }
            }
        }
    }
    boxes
}

/// What the cuts make of some groups.
proof fn lemma_cuts(boxes: Seq<Seq<Swatch>>)
    requires
        1 <= boxes.len() <= MAX_COLOURS,
        forall|i: int| 0 <= i < boxes.len() ==> coloured(#[trigger] boxes[i]),
    ensures
        1 <= cuts(boxes).len() <= MAX_COLOURS,
        flat(cuts(boxes)).to_multiset() == flat(boxes).to_multiset(),
        forall|i: int| 0 <= i < cuts(boxes).len() ==> coloured(#[trigger] cuts(boxes)[i]),
        (forall|i: int| 0 <= i < boxes.len() ==> (#[trigger] boxes[i]).len() > 0) ==> (forall|i: int|
            0 <= i < cuts(boxes).len() ==> (#[trigger] cuts(boxes)[i]).len() > 0),
        cuts(boxes).len() == MAX_COLOURS || forall|i: int|
            0 <= i < cuts(boxes).len() ==> (#[trigger] cuts(boxes)[i]).len() <= 1,
    decreases MAX_COLOURS - boxes.len(),
{
    lemma_cut_next(boxes);
    if boxes.len() < MAX_COLOURS && cut_next(boxes) is Some {
        let k = cut_next(boxes)->0;
        lemma_cut(boxes, k);
        lemma_cuts(cut(boxes, k));
    }
}

proof fn lemma_in_flat(boxes: Seq<Seq<Swatch>>, i: int, j: int)
    requires
        0 <= i < boxes.len(),
        0 <= j < boxes[i].len(),
    ensures
        flat(boxes).contains(boxes[i][j]),
    decreases boxes.len(),
{
    let init = boxes.drop_last();
    if i < init.len() {
        assert(init[i] == boxes[i]);
        lemma_in_flat(init, i, j);
        let k = choose|k: int| 0 <= k < flat(init).len() && flat(init)[k] == boxes[i][j];
        assert(flat(boxes)[k] == boxes[i][j]);
    } else {
        assert(flat(boxes)[flat(init).len() + j] == boxes[i][j]);
    }
}

proof fn lemma_from_flat(boxes: Seq<Seq<Swatch>>, s: Swatch)
    requires
        flat(boxes).contains(s),
    ensures
        exists|i: int, j: int|
            0 <= i < boxes.len() && 0 <= j < boxes[i].len() && #[trigger] boxes[i][j] == s,
    decreases boxes.len(),
{
    let k = choose|k: int| 0 <= k < flat(boxes).len() && flat(boxes)[k] == s;
    if boxes.len() > 0 {
        let init = boxes.drop_last();
        if k < flat(init).len() {
            assert(flat(init)[k] == s);
            assert(flat(init).contains(s));
            lemma_from_flat(init, s);
            let (i, j) = choose|i: int, j: int|
                0 <= i < init.len() && 0 <= j < init[i].len() && #[trigger] init[i][j] == s;
            assert(boxes[i][j] == s);
        } else {
            assert(boxes[boxes.len() - 1][k - flat(init).len()] == s);
        }
    }
}

/// The last group that has a colour.
pub open spec fn owner(boxes: Seq<Seq<Swatch>>, code: u32) -> Option<int>
    decreases boxes.len(),
{
    if boxes.len() == 0 {
        None
    } else if owns(boxes.last(), code) {
        Some(boxes.len() - 1)
    } else {
        owner(boxes.drop_last(), code)
    }
}

proof fn lemma_owner(boxes: Seq<Seq<Swatch>>, code: u32)
    ensures
        match owner(boxes, code) {
            Some(i) => 0 <= i < boxes.len() && owns(boxes[i], code),
            None => forall|i: int| 0 <= i < boxes.len() ==> !owns(#[trigger] boxes[i], code),
        },
    decreases boxes.len(),
{
    if boxes.len() > 0 && !owns(boxes.last(), code) {
        lemma_owner(boxes.drop_last(), code);
        if owner(boxes, code) is None {
            assert forall|i: int| 0 <= i < boxes.len() implies !owns(#[trigger] boxes[i], code) by {
                if i < boxes.len() - 1 {
                    assert(!owns(boxes.drop_last()[i], code));
                }
            }
        }
    }
}

/// What the groups of an image are like: no more than the palette holds, with
/// the colours of the image in them and no others.
pub proof fn lemma_groups(rgb: Seq<u8>)
    requires
        rgb.len() <= usize::MAX,
    ensures
        1 <= groups(rgb).len() <= MAX_COLOURS,
        flat(groups(rgb)).to_multiset() == histogram(rgb).to_multiset(),
        forall|i: int| 0 <= i < groups(rgb).len() ==> coloured(#[trigger] groups(rgb)[i]),
        groups(rgb).len() == MAX_COLOURS || forall|i: int|
            0 <= i < groups(rgb).len() ==> (#[trigger] groups(rgb)[i]).len() <= 1,
        forall|i: int, j: int|
            0 <= i < groups(rgb).len() && 0 <= j < groups(rgb)[i].len() ==> histogram(
                rgb,
            ).contains(#[trigger] groups(rgb)[i][j]),
        forall|code: u32| owns(histogram(rgb), code) ==> owner(groups(rgb), code) is Some,
{
    broadcast use vstd::seq_lib::group_to_multiset_ensures;

    lemma_histogram(rgb);
    let h = histogram(rgb);
    let first = seq![h];
    lemma_cuts(first);
    assert(first.drop_last() =~= Seq::empty());
    assert(flat(first) =~= h) by {
        assert(flat(first.drop_last()) =~= Seq::empty());
    }
    let all = groups(rgb);
    assert forall|i: int, j: int| 0 <= i < all.len() && 0 <= j < all[i].len() implies h.contains(
        #[trigger] all[i][j],
    ) by {
        lemma_in_flat(all, i, j);
        assert(flat(all).to_multiset().count(all[i][j]) > 0);
    }
    assert forall|code: u32| owns(h, code) implies owner(all, code) is Some by {
        let k = choose|k: int| 0 <= k < h.len() && (#[trigger] h[k]).code == code;
        assert(h.contains(h[k]));
        assert(h.to_multiset().count(h[k]) > 0);
        assert(flat(all).contains(h[k]));
        lemma_from_flat(all, h[k]);
        let (i, j) = choose|i: int, j: int|
            0 <= i < all.len() && 0 <= j < all[i].len() && #[trigger] all[i][j] == h[k];
        assert(all[i][j].code == code);
        assert(owns(all[i], code));
        lemma_owner(all, code);
    }
}

// The palette.

/// The sum of a channel over the pixels of a group.
pub open spec fn channel_sum(group: Seq<Swatch>, c: int) -> int
    decreases group.len(),
{
    if group.len() == 0 {
        0
    } else {
        channel_sum(group.drop_last(), c) + channel(group.last().code, c) * group.last().count
    }
}

/// The mean of a channel over the pixels of a group, and zero for no pixels.
pub open spec fn mean(group: Seq<Swatch>, c: int) -> u8 {
    if weight(group) == 0 {
        0
    } else {
        (channel_sum(group, c) / weight(group) as int) as u8
    }
}

/// The colour that stands for a group: the mean over its pixels.
pub open spec fn average_of(group: Seq<Swatch>) -> Seq<u8> {
    seq![mean(group, 0), mean(group, 1), mean(group, 2)]
}

/// The palette of an image.
pub open spec fn palette_of(rgb: Seq<u8>) -> Seq<Seq<u8>> {
    Seq::new(groups(rgb).len(), |i: int| average_of(groups(rgb)[i]))
}

/// The entry of the palette for each pixel of an image.
pub open spec fn indices_of(rgb: Seq<u8>) -> Seq<u8> {
    Seq::new(pixels(rgb).len(), |i: int| (owner(groups(rgb), pixels(rgb)[i])->0) as u8)
}

proof fn lemma_channel_sum(group: Seq<Swatch>, c: int, lo: int, hi: int)
    requires
        0 <= lo <= hi,
        forall|i: int|
            0 <= i < group.len() ==> lo <= channel((#[trigger] group[i]).code, c) <= hi,
    ensures
        lo * weight(group) <= channel_sum(group, c) <= hi * weight(group),
    decreases group.len(),
{
    if group.len() > 0 {
        let init = group.drop_last();
        assert forall|i: int| 0 <= i < init.len() implies lo <= channel(
            (#[trigger] init[i]).code,
            c,
        ) <= hi by {
            assert(init[i] == group[i]);
        }
        lemma_channel_sum(init, c, lo, hi);
        assert(group.last() == group[group.len() - 1]);
        let v = channel(group.last().code, c);
        let n = group.last().count as int;
        let w = weight(init) as int;
        assert(lo * n <= v * n <= hi * n) by (nonlinear_arith)
            requires
                lo <= v <= hi,
                0 <= n,
        ;
        assert(lo * (w + n) == lo * w + lo * n) by (nonlinear_arith);
        assert(hi * (w + n) == hi * w + hi * n) by (nonlinear_arith);
    } else {
        assert(lo * 0 == 0 && hi * 0 == 0);
    }
}

/// The colour that stands for a group is no further out than the colours of the
/// group.
pub proof fn average_lies_within(group: Seq<Swatch>, c: int)
    requires
        coloured(group),
        0 <= c < 3,
        weight(group) > 0,
    ensures
        lowest(group, c) <= channel_sum(group, c) / weight(group) as int <= highest(group, c),
        lowest(group, c) <= mean(group, c) <= highest(group, c),
{
    lemma_spread(group, c);
    let lo = lowest(group, c);
    let hi = highest(group, c);
    lemma_channel_sum(group, c, lo, hi);
    let sum = channel_sum(group, c);
    let w = weight(group) as int;
    assert(lo <= sum / w <= hi) by (nonlinear_arith)
        requires
            lo * w <= sum <= hi * w,
            w > 0,
    ;
}

/// Takes a group to the colour that stands for it.
fn average(group: &Vec<Swatch>) -> (r: [u8; 3])
    requires
        coloured(group@),
        weight(group@) <= u64::MAX,
    ensures
        r@ == average_of(group@),
{
    let total: u64 = weigh(group);
    if total == 0 {
        let r = [0u8, 0u8, 0u8];
        proof {
            assert(r@ =~= average_of(group@));
        }
        return r;
    }
    let mut red: u128 = 0;
    let mut green: u128 = 0;
    let mut blue: u128 = 0;
    let mut i: usize = 0;
    while i < group.len()
        invariant
            i <= group@.len(),
            coloured(group@),
            weight(group@) <= u64::MAX,
            red == channel_sum(group@.take(i as int), 0),
            green == channel_sum(group@.take(i as int), 1),
            blue == channel_sum(group@.take(i as int), 2),
            red <= 255 * weight(group@.take(i as int)),
            green <= 255 * weight(group@.take(i as int)),
            blue <= 255 * weight(group@.take(i as int)),
        decreases group.len() - i,
    {
        let swatch = group[i];
        proof {
            assert(group@[i as int].code < 16777216);
            let next = group@.take(i + 1);
            assert(next.drop_last() =~= group@.take(i as int));
            assert(next.last() == swatch);
            lemma_weight_take(group@, i + 1);
            let n = swatch.count as int;
            assert(channel(swatch.code, 0) * n <= 255 * n) by (nonlinear_arith)
                requires
                    0 <= channel(swatch.code, 0) <= 255,
                    0 <= n,
            ;
            assert(channel(swatch.code, 1) * n <= 255 * n) by (nonlinear_arith)
                requires
                    0 <= channel(swatch.code, 1) <= 255,
                    0 <= n,
            ;
            assert(channel(swatch.code, 2) * n <= 255 * n) by (nonlinear_arith)
                requires
                    0 <= channel(swatch.code, 2) <= 255,
                    0 <= n,
            ;
        }
        let n: u128 = swatch.count as u128;
        let r: u128 = channel_of(swatch.code, 0) as u128;
        let g: u128 = channel_of(swatch.code, 1) as u128;
        let b: u128 = channel_of(swatch.code, 2) as u128;
        red = red + r * n;
        green = green + g * n;
        blue = blue + b * n;
        i += 1;
    }
    proof {
        assert(group@.take(group@.len() as int) =~= group@);
        average_lies_within(group@, 0);
        average_lies_within(group@, 1);
        average_lies_within(group@, 2);
        lemma_spread(group@, 0);
        lemma_spread(group@, 1);
        lemma_spread(group@, 2);
    }
    let w: u128 = total as u128;
    let r = [(red / w) as u8, (green / w) as u8, (blue / w) as u8];
    proof {
        assert(r@ =~= average_of(group@));
    }
    r
}

/// Where a colour stands among colours in order.
fn find(table: &Vec<Swatch>, code: u32) -> (r: usize)
    requires
        rising(table@),
        owns(table@, code),
    ensures
        r < table@.len(),
        table@[r as int].code == code,
{
    let ghost at = choose|i: int| 0 <= i < table@.len() && (#[trigger] table@[i]).code == code;
    let mut lo: usize = 0;
    let mut hi: usize = table.len();
    while lo < hi
        invariant
            lo <= at < hi <= table@.len(),
            rising(table@),
            table@[at].code == code,
        decreases hi - lo,
    {
        let mid: usize = lo + (hi - lo) / 2;
        let found: u32 = table[mid].code;
        if found == code {
            return mid;
        }
        if found < code {
            proof {
                if at < mid {
                    assert(table@[at].code < table@[mid as int].code);
                }
            }
            lo = mid + 1;
        } else {
            proof {
                if mid < at {
                    assert(table@[mid as int].code < table@[at].code);
                }
            }
            hi = mid;
        }
    }
    lo
}

/// Copies swatches.
fn copy(group: &Vec<Swatch>) -> (r: Vec<Swatch>)
    ensures
        r@ == group@,
{
    let mut r: Vec<Swatch> = Vec::new();
    let mut i: usize = 0;
    while i < group.len()
        invariant
            i <= group@.len(),
            r@ =~= group@.take(i as int),
        decreases group.len() - i,
    {
        r.push(group[i]);
        i += 1;
    }
    proof {
        assert(r@ =~= group@);
    }
    r
}

/// Which group each colour is in.
fn find_owners(table: &Vec<Swatch>, boxes: &Vec<Vec<Swatch>>) -> (r: Vec<u8>)
    requires
        rising(table@),
        boxes@.len() <= MAX_COLOURS,
        forall|i: int, j: int|
            0 <= i < boxes@.len() && 0 <= j < boxes@[i]@.len() ==> owns(
                table@,
                (#[trigger] boxes@[i]@[j]).code,
            ),
    ensures
        r@.len() == table@.len(),
        forall|p: int|
            0 <= p < table@.len() ==> (owner(contents(boxes@), (#[trigger] table@[p]).code)
                matches Some(o) ==> r@[p] == o),
{
    let ghost all = contents(boxes@);
    let mut owners: Vec<u8> = Vec::new();
    while owners.len() < table.len()
        invariant
            owners@.len() <= table@.len(),
        decreases table.len() - owners.len(),
    {
        owners.push(0);
    }
    let mut i: usize = 0;
    while i < boxes.len()
        invariant
            i <= boxes@.len() <= MAX_COLOURS,
            all == contents(boxes@),
            rising(table@),
            owners@.len() == table@.len(),
            forall|i: int, j: int|
                0 <= i < boxes@.len() && 0 <= j < boxes@[i]@.len() ==> owns(
                    table@,
                    (#[trigger] boxes@[i]@[j]).code,
                ),
            forall|p: int|
                0 <= p < table@.len() ==> (owner(all.take(i as int), (#[trigger] table@[p]).code)
                    matches Some(o) ==> owners@[p] == o),
        decreases boxes.len() - i,
    {
        let group = &boxes[i];
        let ghost before = owners@;
        let mut j: usize = 0;
        while j < group.len()
            invariant
                i < boxes@.len() <= MAX_COLOURS,
                j <= group@.len(),
                group@ == boxes@[i as int]@,
                rising(table@),
                owners@.len() == table@.len() == before.len(),
                forall|i: int, j: int|
                    0 <= i < boxes@.len() && 0 <= j < boxes@[i]@.len() ==> owns(
                        table@,
                        (#[trigger] boxes@[i]@[j]).code,
                    ),
                forall|p: int|
                    0 <= p < table@.len() ==> owners@[p] == if owns(
                        group@.take(j as int),
                        (#[trigger] table@[p]).code,
                    ) {
                        i as u8
                    } else {
                        before[p]
                    },
            decreases group.len() - j,
        {
            let code: u32 = group[j].code;
            proof {
                assert(owns(table@, boxes@[i as int]@[j as int].code));
            }
            let at: usize = find(table, code);
            let ghost held = owners@;
            owners[at] = i as u8;
            proof {
                let now = group@.take(j as int);
                let next = group@.take(j + 1);
                assert forall|p: int| 0 <= p < table@.len() implies owners@[p] == if owns(
                    next,
                    (#[trigger] table@[p]).code,
                ) {
                    i as u8
                } else {
                    before[p]
                } by {
                    let x = table@[p].code;
                    assert(held[p] == if owns(now, table@[p].code) {
                        i as u8
                    } else {
                        before[p]
                    });
                    if owns(now, x) {
                        let k = choose|k: int| 0 <= k < now.len() && (#[trigger] now[k]).code == x;
                        assert(next[k].code == x);
                    }
                    if x == code {
                        assert(next[j as int].code == x);
                        assert(p == at) by {
                            if p < at {
                                assert(table@[p].code < table@[at as int].code);
                            }
                            if at < p {
                                assert(table@[at as int].code < table@[p].code);
                            }
                        }
                    } else {
                        assert(p != at);
                        if owns(next, x) {
                            let k = choose|k: int|
                                0 <= k < next.len() && (#[trigger] next[k]).code == x;
                            assert(k < j);
                            assert(now[k].code == x);
                        }
                    }
                }
            }
            j += 1;
        }
        proof {
            assert(group@.take(group@.len() as int) =~= group@);
            let next = all.take(i + 1);
            assert(next.drop_last() =~= all.take(i as int));
            assert(next.last() == group@);
            assert forall|p: int| 0 <= p < table@.len() implies (owner(
                next,
                (#[trigger] table@[p]).code,
            ) matches Some(o) ==> owners@[p] == o) by {
                let x = table@[p].code;
                assert(owner(all.take(i as int), x) matches Some(o) ==> before[p] == o);
            }
        }
        i += 1;
    }
    proof {
        assert(all.take(all.len() as int) =~= all);
    }
    owners
}

/// Reduces an image to a palette, and one entry of the palette for each pixel.
pub fn quantise(rgb: &[u8]) -> (r: (Vec<[u8; 3]>, Vec<u8>))
    ensures
        r.0@.len() == palette_of(rgb@).len(),
        forall|i: int| 0 <= i < r.0@.len() ==> (#[trigger] r.0@[i])@ == palette_of(rgb@)[i],
        r.1@ == indices_of(rgb@),
{
    let len: usize = rgb.len();
    proof {
        lemma_histogram(rgb@);
        lemma_groups(rgb@);
    }
    let colours = count_colours(rgb);
    let table = copy(&colours);
    let boxes = median_cut(colours);
    let ghost all = groups(rgb@);
    proof {
        assert(contents(boxes@) == all);
        assert forall|i: int, j: int|
            0 <= i < boxes@.len() && 0 <= j < boxes@[i]@.len() implies owns(
            table@,
            (#[trigger] boxes@[i]@[j]).code,
        ) && boxes@[i]@[j].count > 0 by {
            assert(all[i][j] == boxes@[i]@[j]);
            assert(table@.contains(all[i][j]));
            let k = choose|k: int| 0 <= k < table@.len() && table@[k] == all[i][j];
            assert(table@[k].code == all[i][j].code);
        }
    }
    let mut palette: Vec<[u8; 3]> = Vec::new();
    let mut i: usize = 0;
    while i < boxes.len()
        invariant
            i <= boxes@.len(),
            rgb@.len() <= usize::MAX,
            all == groups(rgb@),
            contents(boxes@) == all,
            forall|k: int| 0 <= k < boxes@.len() ==> weight((#[trigger] boxes@[k])@) <= u64::MAX,
            palette@.len() == i,
            forall|k: int| 0 <= k < i ==> (#[trigger] palette@[k])@ == palette_of(rgb@)[k],
        decreases boxes.len() - i,
    {
        proof {
            assert(all[i as int] == boxes@[i as int]@);
            lemma_groups(rgb@);
        }
        palette.push(average(&boxes[i]));
        i += 1;
    }
    let owners = find_owners(&table, &boxes);
    let n: usize = len / 3;
    let mut indices: Vec<u8> = Vec::new();
    while indices.len() < n
        invariant
            indices@.len() <= n,
            n == len / 3,
            len == rgb@.len(),
            all == groups(rgb@),
            rising(table@),
            table@ == histogram(rgb@),
            owners@.len() == table@.len(),
            forall|k: int|
                0 <= k < pixels(rgb@).len() ==> owns(table@, #[trigger] pixels(rgb@)[k]),
            forall|code: u32| owns(table@, code) ==> owner(all, code) is Some,
            forall|p: int|
                0 <= p < table@.len() ==> (owner(all, (#[trigger] table@[p]).code) matches Some(o)
                    ==> owners@[p] == o),
            indices@ =~= indices_of(rgb@).take(indices@.len() as int),
        decreases n - indices.len(),
    {
        let k: usize = indices.len();
        let at: usize = 3 * k;
        let colour: u32 = code(rgb[at], rgb[at + 1], rgb[at + 2]);
        proof {
            assert(colour == pixels(rgb@)[k as int]);
        }
        let p: usize = find(&table, colour);
        proof {
            assert(owns(table@, colour));
            assert(owner(all, table@[p as int].code) is Some);
        }
        indices.push(owners[p]);
    }
    proof {
        assert(indices@ =~= indices_of(rgb@));
    }
    (palette, indices)
}

// What holds of the palette.

/// How many of the pixels have a colour.
pub open spec fn number_of(codes: Seq<u32>, code: u32) -> nat
    decreases codes.len(),
{
    if codes.len() == 0 {
        0
    } else {
        number_of(codes.drop_last(), code) + if codes.last() == code {
            1nat
        } else {
            0nat
        }
    }
}

proof fn lemma_singles(codes: Seq<u32>, code: u32)
    ensures
        weight_of(singles(codes), code) == number_of(codes, code),
    decreases codes.len(),
{
    if codes.len() > 0 {
        assert(singles(codes).drop_last() =~= singles(codes.drop_last()));
        lemma_singles(codes.drop_last(), code);
    }
}

proof fn lemma_weight_of_sum(a: Seq<Swatch>, b: Seq<Swatch>, code: u32)
    ensures
        weight_of(a + b, code) == weight_of(a, code) + weight_of(b, code),
    decreases b.len(),
{
    if b.len() == 0 {
        assert(a + b =~= a);
    } else {
        assert((a + b).drop_last() =~= a + b.drop_last());
        lemma_weight_of_sum(a, b.drop_last(), code);
    }
}

proof fn lemma_value_weight_of(group: Seq<Swatch>, c: int, v: int, code: u32)
    ensures
        weight_of(with_value(group, c, v), code) == if channel(code, c) == v {
            weight_of(group, code)
        } else {
            0
        },
    decreases group.len(),
{
    if group.len() > 0 {
        lemma_value_weight_of(group.drop_last(), c, v, code);
        let part = with_value(group.drop_last(), c, v);
        assert(part.push(group.last()).drop_last() =~= part);
    }
}

proof fn lemma_below_weight_of(group: Seq<Swatch>, c: int, n: int, code: u32)
    requires
        0 <= n,
    ensures
        weight_of(below(group, c, n), code) == if 0 <= channel(code, c) < n {
            weight_of(group, code)
        } else {
            0
        },
    decreases n,
{
    if n > 0 {
        lemma_below_weight_of(group, c, n - 1, code);
        lemma_value_weight_of(group, c, n - 1, code);
        lemma_weight_of_sum(below(group, c, n - 1), with_value(group, c, n - 1), code);
    }
}

/// Each colour of an image is counted as often as it occurs.
pub proof fn colours_are_counted(rgb: Seq<u8>, code: u32)
    requires
        rgb.len() <= usize::MAX,
        code < 16777216,
    ensures
        weight_of(histogram(rgb), code) == number_of(pixels(rgb), code),
{
    let codes = pixels(rgb);
    lemma_in_order(codes);
    lemma_ordered_pixels(codes);
    let a = singles(codes);
    let b = by_channel(a, 2);
    let c = by_channel(b, 1);
    let d = by_channel(c, 0);
    lemma_weight_of_ones(d);
    lemma_tallied(d);
    lemma_below_weight_of(a, 2, 256, code);
    lemma_below_weight_of(b, 1, 256, code);
    lemma_below_weight_of(c, 0, 256, code);
    lemma_singles(codes, code);
    assert(weight_of(tallied(d), code) == weight_of(d, code));
}

/// The palette is never empty and never larger than the terminal provides, and
/// every pixel has an entry in it.
pub proof fn palette_is_bounded(rgb: Seq<u8>, i: int)
    requires
        rgb.len() <= usize::MAX,
        0 <= i < pixels(rgb).len(),
    ensures
        1 <= palette_of(rgb).len() <= MAX_COLOURS,
        indices_of(rgb).len() == rgb.len() / 3,
        indices_of(rgb)[i] < palette_of(rgb).len(),
        owner(groups(rgb), pixels(rgb)[i]) == Some(indices_of(rgb)[i] as int),
{
    lemma_histogram(rgb);
    lemma_groups(rgb);
    let code = pixels(rgb)[i];
    assert(owns(histogram(rgb), code));
    lemma_owner(groups(rgb), code);
}

/// On each channel a pixel is shown no further off than its group varies.
pub proof fn error_stays_inside_the_group(rgb: Seq<u8>, i: int, c: int)
    requires
        rgb.len() <= usize::MAX,
        0 <= i < pixels(rgb).len(),
        0 <= c < 3,
    ensures
        ({
            let group = groups(rgb)[indices_of(rgb)[i] as int];
            let shown = palette_of(rgb)[indices_of(rgb)[i] as int][c] as int;
            let meant = channel(pixels(rgb)[i], c);
            -spread(group, c) <= shown - meant <= spread(group, c)
        }),
{
    palette_is_bounded(rgb, i);
    lemma_histogram(rgb);
    lemma_groups(rgb);
    let k = indices_of(rgb)[i] as int;
    let group = groups(rgb)[k];
    let code = pixels(rgb)[i];
    lemma_owner(groups(rgb), code);
    let j = choose|j: int| 0 <= j < group.len() && (#[trigger] group[j]).code == code;
    lemma_spread(group, c);
    assert(groups(rgb)[k][j] == group[j]);
    lemma_weight_positive(group, j, rgb, k);
    average_lies_within(group, c);
}

proof fn lemma_weight_positive(group: Seq<Swatch>, j: int, rgb: Seq<u8>, k: int)
    requires
        rgb.len() <= usize::MAX,
        0 <= k < groups(rgb).len(),
        group == groups(rgb)[k],
        0 <= j < group.len(),
    ensures
        weight(group) > 0,
{
    lemma_histogram(rgb);
    lemma_groups(rgb);
    assert(histogram(rgb).contains(groups(rgb)[k][j]));
    let h = histogram(rgb);
    let p = choose|p: int| 0 <= p < h.len() && h[p] == groups(rgb)[k][j];
    assert(h[p].count > 0);
    lemma_weight_take(group, j + 1);
    assert(group.take(j + 1).last() == group[j]);
}

proof fn lemma_flat_len(boxes: Seq<Seq<Swatch>>)
    requires
        forall|i: int| 0 <= i < boxes.len() ==> (#[trigger] boxes[i]).len() > 0,
    ensures
        flat(boxes).len() >= boxes.len(),
        flat(boxes).len() == boxes.len() ==> forall|i: int|
            0 <= i < boxes.len() ==> (#[trigger] boxes[i]).len() == 1,
    decreases boxes.len(),
{
    if boxes.len() > 0 {
        let init = boxes.drop_last();
        assert forall|i: int| 0 <= i < init.len() implies (#[trigger] init[i]).len() > 0 by {
            assert(init[i] == boxes[i]);
        }
        lemma_flat_len(init);
        assert(boxes[boxes.len() - 1].len() > 0);
        if flat(boxes).len() == boxes.len() {
            assert forall|i: int| 0 <= i < boxes.len() implies (#[trigger] boxes[i]).len() == 1 by {
                if i < init.len() {
                    assert(init[i] == boxes[i]);
                }
            }
        }
    }
}

/// With no more colours than the palette holds, each has a group of its own.
proof fn lemma_single_groups(rgb: Seq<u8>)
    requires
        rgb.len() <= usize::MAX,
        0 < histogram(rgb).len() <= MAX_COLOURS,
    ensures
        forall|k: int| 0 <= k < groups(rgb).len() ==> (#[trigger] groups(rgb)[k]).len() == 1,
{
    broadcast use vstd::seq_lib::group_to_multiset_ensures;

    lemma_histogram(rgb);
    lemma_groups(rgb);
    let all = groups(rgb);
    let h = histogram(rgb);
    assert(flat(all).len() == flat(all).to_multiset().len());
    assert(h.len() == h.to_multiset().len());
    let first = seq![h];
    lemma_cuts(first);
    lemma_flat_len(all);
    assert forall|k: int| 0 <= k < all.len() implies (#[trigger] all[k]).len() == 1 by {
        assert(all[k].len() > 0);
    }
}

/// A group of one colour is shown as that colour.
proof fn lemma_single(group: Seq<Swatch>, c: int)
    requires
        group.len() == 1,
        coloured(group),
        weight(group) > 0,
        0 <= c < 3,
    ensures
        mean(group, c) == channel(group[0].code, c),
{
    lemma_spread(group, c);
    average_lies_within(group, c);
    assert(group.last() == group[0]);
}

/// An image with no more colours than the palette holds loses none of them: each
/// pixel is shown as it is.
pub proof fn few_colours_are_kept(rgb: Seq<u8>, i: int)
    requires
        rgb.len() <= usize::MAX,
        histogram(rgb).len() <= MAX_COLOURS,
        0 <= i < pixels(rgb).len(),
    ensures
        palette_of(rgb)[indices_of(rgb)[i] as int] == seq![
            rgb[3 * i],
            rgb[3 * i + 1],
            rgb[3 * i + 2],
        ],
{
    palette_is_bounded(rgb, i);
    let k = indices_of(rgb)[i] as int;
    let group = groups(rgb)[k];
    let code = pixels(rgb)[i];
    assert(owns(histogram(rgb), code) && coloured(group)) by {
        lemma_histogram(rgb);
        lemma_groups(rgb);
    }
    lemma_single_groups(rgb);
    lemma_owner(groups(rgb), code);
    assert(group.len() == 1);
    assert(group[0].code == code);
    lemma_weight_positive(group, 0, rgb, k);
    lemma_single(group, 0);
    lemma_single(group, 1);
    lemma_single(group, 2);
    let r = rgb[3 * i];
    let g = rgb[3 * i + 1];
    let b = rgb[3 * i + 2];
    assert(code == code_of(r, g, b));
    assert(channel(code, 0) == r && channel(code, 1) == g && channel(code, 2) == b);
    assert(palette_of(rgb)[k] =~= seq![r, g, b]);
}

/// How much a group varies on a channel is the largest difference between two of
/// its colours.
pub proof fn spread_is_the_largest_difference(group: Seq<Swatch>, c: int, p: int, q: int)
    requires
        0 <= c < 3,
        coloured(group),
        0 <= p < group.len(),
        0 <= q < group.len(),
    ensures
        channel(group[p].code, c) - channel(group[q].code, c) <= spread(group, c),
        exists|a: int, b: int|
            0 <= a < group.len() && 0 <= b < group.len() && channel(
                (#[trigger] group[a]).code,
                c,
            ) - channel((#[trigger] group[b]).code, c) == spread(group, c),
{
    lemma_spread(group, c);
    lemma_extremes(group, c);
    let a = choose|a: int|
        0 <= a < group.len() && channel((#[trigger] group[a]).code, c) == highest(group, c);
    let b = choose|b: int|
        0 <= b < group.len() && channel((#[trigger] group[b]).code, c) == lowest(group, c);
    assert(channel(group[a].code, c) - channel(group[b].code, c) == spread(group, c));
}

proof fn lemma_extremes(group: Seq<Swatch>, c: int)
    requires
        group.len() > 0,
    ensures
        exists|a: int|
            0 <= a < group.len() && channel((#[trigger] group[a]).code, c) == highest(group, c),
        exists|b: int|
            0 <= b < group.len() && channel((#[trigger] group[b]).code, c) == lowest(group, c),
    decreases group.len(),
{
    let init = group.drop_last();
    let last = group.len() - 1;
    assert(group[last] == group.last());
    if group.len() > 1 {
        lemma_extremes(init, c);
        let a = choose|a: int|
            0 <= a < init.len() && channel((#[trigger] init[a]).code, c) == highest(init, c);
        let b = choose|b: int|
            0 <= b < init.len() && channel((#[trigger] init[b]).code, c) == lowest(init, c);
        assert(group[a] == init[a] && group[b] == init[b]);
    }
}

/// The group that is cut is one that varies most: no other group with two colours
/// or more varies more on any channel.
pub proof fn most_varied_group_is_cut(boxes: Seq<Seq<Swatch>>, j: int, c: int)
    requires
        0 <= j < boxes.len(),
        boxes[j].len() > 1,
        0 <= c < 3,
    ensures
        cut_next(boxes) is Some,
        ({
            let k = cut_next(boxes)->0;
            &&& 0 <= k < boxes.len()
            &&& boxes[k].len() > 1
            &&& 0 <= widest(boxes[k]) < 3
            &&& spread(boxes[j], c) <= spread(boxes[k], widest(boxes[k]))
        }),
    decreases boxes.len(),
{
    lemma_cut_next(boxes);
    let init = boxes.drop_last();
    if j < boxes.len() - 1 {
        assert(init[j] == boxes[j]);
        most_varied_group_is_cut(init, j, c);
        let i = cut_next(init)->0;
        assert(init[i] == boxes[i]);
    } else {
        lemma_cut_next(init);
        if cut_next(init) is Some {
            assert(init[cut_next(init)->0] == boxes[cut_next(init)->0]);
        }
    }
}

proof fn lemma_passes(group: Seq<Swatch>, half: nat, i: int)
    requires
        0 <= i <= group.len(),
        weight(group.take(i)) <= half,
    ensures
        ({
            let at = passes(group, half, i);
            &&& i <= at <= group.len()
            &&& weight(group.take(at)) <= half
            &&& at < group.len() ==> weight(group.take(at + 1)) > half
        }),
    decreases group.len() - i,
{
    if i < group.len() && weight(group.take(i + 1)) <= half {
        lemma_passes(group, half, i + 1);
    }
}

/// A group is cut where half of its pixels stand on either side, as nearly as its
/// colours allow: those in front are no more than half, unless it is one colour
/// alone, and with the next one they are more.
pub proof fn groups_are_cut_in_half(group: Seq<Swatch>)
    requires
        group.len() > 1,
        weight(group) > 0,
    ensures
        ({
            let at = median(group);
            &&& 1 <= at < group.len()
            &&& at > 1 ==> 2 * weight(group.take(at)) <= weight(group)
            &&& 2 * weight(group.take(at + 1)) > weight(group) || at == group.len() - 1
            &&& weight(group.take(at)) + weight(group.skip(at)) == weight(group)
        }),
{
    let half = weight(group) / 2;
    assert(group.take(0) =~= Seq::empty());
    lemma_passes(group, half, 0);
    let at = passes(group, half, 0);
    assert(group.take(group.len() as int) =~= group);
    assert(at < group.len());
    let m = median(group);
    if at == 0 {
        let one = group.take(1);
        lemma_weight_take(group.take(2), 1);
        assert(group.take(2).take(1) =~= one);
    }
    lemma_weight_sum(group.take(m), group.skip(m));
    assert(group.take(m) + group.skip(m) =~= group);
}

/// Cutting a group puts its lower colours into one part and its higher ones into
/// the other, on the channel that it varies most on; the other groups stay.
pub proof fn cutting_parts_low_from_high(boxes: Seq<Seq<Swatch>>, k: int, p: int, q: int)
    requires
        0 <= k < boxes.len(),
        coloured(boxes[k]),
        boxes[k].len() > 1,
    ensures
        ({
            let after = cut(boxes, k);
            let low = after[after.len() - 2];
            let high = after[after.len() - 1];
            let c = widest(boxes[k]);
            &&& after.len() == boxes.len() + 1
            &&& low.len() > 0
            &&& high.len() > 0
            &&& low.len() + high.len() == boxes[k].len()
            &&& 0 <= p < low.len() && 0 <= q < high.len() ==> channel(low[p].code, c) <= channel(
                high[q].code,
                c,
            )
        }),
{
    let c = widest(boxes[k]);
    lemma_by_channel(boxes[k], c);
    let sorted = by_channel(boxes[k], c);
    let at = median(sorted);
    assert(1 <= at < sorted.len());
    let after = cut(boxes, k);
    assert(after[after.len() - 2] =~= sorted.take(at));
    assert(after[after.len() - 1] =~= sorted.skip(at));
    lemma_below(boxes[k], c, 256, |x: u32| 0int);
    if 0 <= p < at && 0 <= q < sorted.len() - at {
        assert(sorted.take(at)[p] == sorted[p]);
        assert(sorted.skip(at)[q] == sorted[at + q]);
    }
}

/// The colour that stands for a group is the mean over its pixels, rounded down.
pub proof fn group_is_shown_as_its_mean(group: Seq<Swatch>, c: int)
    requires
        coloured(group),
        0 <= c < 3,
        weight(group) > 0,
    ensures
        mean(group, c) * weight(group) <= channel_sum(group, c),
        channel_sum(group, c) < (mean(group, c) + 1) * weight(group),
        average_of(group)[c] == mean(group, c),
{
    average_lies_within(group, c);
    lemma_spread(group, c);
    let sum = channel_sum(group, c);
    let w = weight(group) as int;
    let m = sum / w;
    assert(m * w <= sum < (m + 1) * w) by (nonlinear_arith)
        requires
            m == sum / w,
            w > 0,
    ;
}

} // verus!
