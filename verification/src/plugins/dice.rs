//! The `dice` plugin: rolls dice written as `<count>d<sides>`, such as `3d6`.
use vstd::prelude::*;

use rand::Rng;

use crate::sdk::{AdapterEvent, MessageContent, MessageEvent, MessageMeta, PluginEvent, PrivateMeta};
use crate::text::{
    chars_of, decimal, find_char, first_index_of, is_digit, is_ws, law_decimal_digits, parse_u32,
    parse_u32_spec, push_all, push_str, slice_chars, string_of, trim, trim_chars, trim_start,
    u64_decimal,
};

verus! {

/// `rand::rngs::ThreadRng`: the thread-local random generator, carried through
/// untouched.
#[verifier::external_type_specification]
#[verifier::external_body]
pub struct ExThreadRng(rand::rngs::ThreadRng);

/// Most dice in one roll.
pub const MAX_COUNT: u32 = 99;

/// Most sides of one die.
pub const MAX_SIDES: u32 = 10000;

/// A roll of `count` dice with `sides` sides each.
#[derive(Debug, Clone, Copy, PartialEq, Eq)]
pub struct DiceExpr {
    pub count: u32,
    pub sides: u32,
}

/// What `parse_dice` gives for a text: the trimmed text split at its first
/// `d` into two numbers, accepted when there are 1 to 99 dice of 1 to 10000
/// sides.
pub open spec fn parse_dice_spec(s: Seq<char>) -> Option<DiceExpr> {
    let t = trim(s);
    match first_index_of(t, 'd') {
        None => None,
        Some(i) => match (
            parse_u32_spec(t.subrange(0, i)),
            parse_u32_spec(t.subrange(i + 1, t.len() as int)),
        ) {
            (Some(count), Some(sides)) => if 1 <= count <= MAX_COUNT && 1 <= sides <= MAX_SIDES {
                Some(DiceExpr { count, sides })
            } else {
                None
            },
            _ => None,
        },
    }
}

proof fn lemma_parse_decimal(n: u32)
    ensures
        parse_u32_spec(decimal(n as nat)) == Some(n),
        decimal(n as nat).len() > 0,
        forall|i: int| 0 <= i < decimal(n as nat).len() ==> is_digit(#[trigger] decimal(n as nat)[i]),
{
    law_decimal_digits(n as nat);
    let d = decimal(n as nat);
    assert(is_digit(d[0]));
}

/// Reading back a written roll gives the same roll: `<count>d<sides>` in
/// decimal reads as that expression when it is in range, and as nothing
/// when it is not.
pub proof fn law_parse_written_dice(count: u32, sides: u32)
    ensures
        parse_dice_spec(decimal(count as nat) + "d"@ + decimal(sides as nat)) == if 1 <= count
            <= MAX_COUNT && 1 <= sides <= MAX_SIDES {
            Some(DiceExpr { count, sides })
        } else {
            None
        },
{
    reveal_strlit("d");
    lemma_parse_decimal(count);
    lemma_parse_decimal(sides);
    let dc = decimal(count as nat);
    let ds = decimal(sides as nat);
    let s = dc + "d"@ + ds;
    let k = dc.len() as int;
    assert(s[k] == 'd');
    assert(forall|j: int| 0 <= j < k ==> s[j] == dc[j]);
    assert(forall|j: int| k < j < s.len() ==> s[j] == ds[j - k - 1]);
    assert(!is_ws(s[0]));
    assert(s.last() == ds[ds.len() - 1]);
    assert(!is_ws(s.last()));
    assert(trim_start(s) == s);
    assert(trim(s) == s);
    assert(exists|i: int| 0 <= i < s.len() && s[i] == 'd');
    let c = choose|i: int| 0 <= i < s.len() && s[i] == 'd' && forall|j: int| 0 <= j < i ==> s[j] != 'd';
    assert(forall|j: int| 0 <= j < k ==> s[j] != 'd') by {
        assert forall|j: int| 0 <= j < k implies s[j] != 'd' by {
            assert(is_digit(dc[j]));
        }
    }
    if c < k {
        assert(is_digit(dc[c]));
    }
    assert(c == k);
    assert(first_index_of(s, 'd') == Some(k));
    assert(s.subrange(0, k) =~= dc);
    assert(s.subrange(k + 1, s.len() as int) =~= ds);
}

/// Reads a dice expression such as `2d20` from a message text.
pub fn parse_dice(text: &str) -> (r: Option<DiceExpr>)
    ensures
        r == parse_dice_spec(text@),
{
    let t = trim_chars(&chars_of(text));
    let found = find_char(&t, 'd');
    if found.is_none() {
        return None;
    }
    let i = found.unwrap();
    assert(i < t@.len());
    let after = i + 1;
    let count = match parse_u32(&slice_chars(&t, 0, i)) {
        Some(c) => c,
        None => return None,
    };
    let sides = match parse_u32(&slice_chars(&t, after, t.len())) {
        Some(s) => s,
        None => return None,
    };
    if count == 0 || count > MAX_COUNT || sides == 0 || sides > MAX_SIDES {
        return None;
    }
    Some(DiceExpr { count, sides })
}

/// The sum of the rolled values.
pub open spec fn values_sum(vals: Seq<u32>) -> nat
    decreases vals.len(),
{
    if vals.len() == 0 {
        0
    } else {
        values_sum(vals.drop_last()) + vals.last() as nat
    }
}

/// The rolled values in decimal, joined by `+`.
pub open spec fn joined(vals: Seq<u32>) -> Seq<char>
    decreases vals.len(),
{
    if vals.len() == 0 {
        seq![]
    } else if vals.len() == 1 {
        decimal(vals[0] as nat)
    } else {
        joined(vals.drop_last()) + "+"@ + decimal(vals.last() as nat)
    }
}

/// `count` values, each from 1 to `sides`.
pub open spec fn valid_roll(expr: DiceExpr, vals: Seq<u32>) -> bool {
    &&& vals.len() == expr.count
    &&& forall|i: int| 0 <= i < vals.len() ==> 1 <= #[trigger] vals[i] <= expr.sides
}

/// The answer to a roll: `1d6 = 4` for one die, `3d6 = 1+5+2 = 8` for more.
pub open spec fn roll_text(expr: DiceExpr, vals: Seq<u32>) -> Seq<char> {
    let head = decimal(expr.count as nat) + "d"@ + decimal(expr.sides as nat) + " = "@;
    if expr.count == 1 {
        head + decimal(vals[0] as nat)
    } else {
        head + joined(vals) + " = "@ + decimal(values_sum(vals))
    }
}

/// The arithmetic sum of the rolled values.
pub open spec fn sum_of(vals: Seq<u32>) -> int {
    vals.fold_left(0int, |acc: int, v: u32| acc + v)
}

proof fn lemma_values_sum_is_sum(vals: Seq<u32>)
    ensures
        values_sum(vals) == sum_of(vals),
    decreases vals.len(),
{
    if vals.len() > 0 {
        lemma_values_sum_is_sum(vals.drop_last());
    }
}

/// The values are written in the order rolled, joined by `+`: one value is
/// its decimal, and the values of `a + b` are those of `a`, a `+`, then
/// those of `b`.
pub proof fn law_joined_in_order(a: Seq<u32>, b: Seq<u32>)
    ensures
        joined(Seq::<u32>::empty()) == Seq::<char>::empty(),
        a.len() == 1 ==> joined(a) == decimal(a[0] as nat),
        a.len() > 0 && b.len() > 0 ==> joined(a + b) == joined(a) + "+"@ + joined(b),
    decreases b.len(),
{
    if a.len() > 0 && b.len() > 0 {
        let q = b.drop_last();
        let t = a + b;
        assert(t.drop_last() =~= a + q);
        assert(t.last() == b.last());
        if b.len() == 1 {
            assert(a + q =~= a);
            assert(b[0] == b.last());
        } else {
            law_joined_in_order(a, q);
            let ja = joined(a);
            let jq = joined(q);
            let d = decimal(b.last() as nat);
            assert(ja + "+"@ + jq + "+"@ + d =~= ja + "+"@ + (jq + "+"@ + d));
        }
    }
}

/// The answer to a roll of several dice is `NdM = v1+...+vn = total`, the
/// total being the arithmetic sum of the values; one die gives `1dM = v`.
pub proof fn law_roll_answer(expr: DiceExpr, vals: Seq<u32>)
    requires
        vals.len() == expr.count,
    ensures
        expr.count == 1 ==> roll_text(expr, vals) == "1"@ + "d"@ + decimal(expr.sides as nat) + " = "@
            + decimal(vals[0] as nat),
        expr.count != 1 ==> roll_text(expr, vals) == decimal(expr.count as nat) + "d"@ + decimal(
            expr.sides as nat,
        ) + " = "@ + joined(vals) + " = "@ + decimal(sum_of(vals) as nat),
        expr.count != 1 ==> exists|prefix: Seq<char>|
            roll_text(expr, vals) == prefix + " = "@ + decimal(sum_of(vals) as nat),
{
    lemma_values_sum_is_sum(vals);
    if expr.count == 1 {
        reveal_strlit("1");
        assert(decimal(1) =~= "1"@);
    } else {
        let prefix = decimal(expr.count as nat) + "d"@ + decimal(expr.sides as nat) + " = "@
            + joined(vals);
        assert(roll_text(expr, vals) == prefix + " = "@ + decimal(sum_of(vals) as nat));
    }
}

proof fn lemma_sum_prefix(vals: Seq<u32>, i: int)
    requires
        0 <= i <= vals.len(),
    ensures
        values_sum(vals.subrange(0, i)) <= values_sum(vals),
    decreases vals.len(),
{
    if i < vals.len() {
        assert(vals.drop_last().subrange(0, i) =~= vals.subrange(0, i));
        lemma_sum_prefix(vals.drop_last(), i);
    } else {
        assert(vals.subrange(0, i) =~= vals);
    }
}

proof fn lemma_sum_bound(vals: Seq<u32>, sides: u32)
    requires
        forall|i: int| 0 <= i < vals.len() ==> #[trigger] vals[i] <= sides,
    ensures
        values_sum(vals) <= vals.len() * sides,
    decreases vals.len(),
{
    if vals.len() > 0 {
        let d = vals.drop_last();
        assert forall|i: int| 0 <= i < d.len() implies #[trigger] d[i] <= sides by {
            assert(d[i] == vals[i]);
        }
        lemma_sum_bound(d, sides);
        assert(vals.last() <= sides);
        assert((d.len() + 1) * sides == d.len() * sides + sides) by (nonlinear_arith);
    }
}

/// Writes the answer to a roll whose values are given.
pub fn format_roll(expr: &DiceExpr, vals: &Vec<u32>) -> (r: String)
    requires
        vals@.len() == expr.count,
        values_sum(vals@) <= u32::MAX,
    ensures
        r@ == roll_text(*expr, vals@),
{
    let mut out = u64_decimal(expr.count as u64);
    push_str(&mut out, "d");
    let sides = u64_decimal(expr.sides as u64);
    push_all(&mut out, &sides);
    push_str(&mut out, " = ");
    let ghost head = out@;
    if expr.count == 1 {
        let v = u64_decimal(vals[0] as u64);
        push_all(&mut out, &v);
        return string_of(&out);
    }
    let mut total: u32 = 0;
    let mut i: usize = 0;
    while i < vals.len()
        invariant
            0 <= i <= vals@.len(),
            values_sum(vals@) <= u32::MAX,
            total == values_sum(vals@.subrange(0, i as int)),
            out@ == head + joined(vals@.subrange(0, i as int)),
        decreases vals@.len() - i,
    {
        let ghost before = out@;
        if i > 0 {
            push_str(&mut out, "+");
        }
        let d = u64_decimal(vals[i] as u64);
        push_all(&mut out, &d);
        proof {
            let s = vals@.subrange(0, i + 1);
            assert(s.drop_last() =~= vals@.subrange(0, i as int));
            assert(s.last() == vals@[i as int]);
            if i == 0 {
                assert(s.len() == 1);
                assert(joined(vals@.subrange(0, 0)) =~= seq![]);
                assert(out@ =~= head + joined(s));
            } else {
                assert(out@ =~= head + joined(s));
            }
            lemma_sum_prefix(vals@, i + 1);
        }
        total = total + vals[i];
        i = i + 1;
    }
    assert(vals@.subrange(0, vals@.len() as int) =~= vals@);
    push_str(&mut out, " = ");
    let t = u64_decimal(total as u64);
    push_all(&mut out, &t);
    string_of(&out)
}

/// `rand::thread_rng`: the thread-local random generator. Nothing is stated
/// of its state.
#[verifier::external_body]
fn thread_rng() -> rand::rngs::ThreadRng {
    rand::thread_rng()
}

/// `Rng::gen_range(1..=sides)`: a random number from 1 to `sides`. The crate
/// panics on an empty range, which `requires` leaves out; which number comes
/// is chance, so only its range is stated.
#[verifier::external_body]
fn gen_die(rng: &mut rand::rngs::ThreadRng, sides: u32) -> (v: u32)
    requires
        sides >= 1,
    ensures
        1 <= v <= sides,
{
    rng.gen_range(1..=sides)
}

/// Rolls `count` dice of `sides` sides.
pub fn roll_values(expr: &DiceExpr, rng: &mut rand::rngs::ThreadRng) -> (vals: Vec<u32>)
    requires
        expr.sides >= 1,
    ensures
        valid_roll(*expr, vals@),
{
    let mut vals: Vec<u32> = Vec::new();
    let mut i: u32 = 0;
    while i < expr.count
        invariant
            expr.sides >= 1,
            i <= expr.count,
            vals@.len() == i,
            forall|j: int| 0 <= j < vals@.len() ==> 1 <= #[trigger] vals@[j] <= expr.sides,
        decreases expr.count - i,
    {
        let v = gen_die(rng, expr.sides);
        vals.push(v);
        i = i + 1;
    }
    vals
}

/// Rolls the dice and writes the answer. The values are chance: the answer is
/// the one for some valid roll.
pub fn roll(expr: &DiceExpr, rng: &mut rand::rngs::ThreadRng) -> (r: String)
    requires
        expr.sides >= 1,
        expr.count * expr.sides <= u32::MAX,
    ensures
        exists|vals: Seq<u32>| valid_roll(*expr, vals) && r@ == roll_text(*expr, vals),
{
    let vals = roll_values(expr, rng);
    proof {
        lemma_sum_bound(vals@, expr.sides);
    }
    let r = format_roll(expr, &vals);
    assert(valid_roll(*expr, vals@) && r@ == roll_text(*expr, vals@));
    r
}

/// The origin of a message, copied.
fn copy_meta(m: &MessageMeta) -> (r: MessageMeta)
    ensures
        r == *m,
{
    match m {
        MessageMeta::Private(p) => MessageMeta::Private(PrivateMeta { user_id: p.user_id.clone() }),
    }
}

/// Answers a message that names a roll with one message to the same origin
/// holding the result; any other message gets no answer.
pub fn handle_event(event: &AdapterEvent) -> (r: Option<Vec<PluginEvent>>)
    ensures
        r is None <==> parse_dice_spec(event.text()) is None,
        r matches Some(evs) ==> {
            let expr = parse_dice_spec(event.text())->0;
            &&& evs@.len() == 1
            &&& evs@[0] matches PluginEvent::Message(m) && (event matches AdapterEvent::Message(
                src,
            ) && m.meta == src.meta) && exists|vals: Seq<u32>|
                valid_roll(expr, vals) && m.content.text@ == roll_text(expr, vals)
        },
{
    let msg = match event {
        AdapterEvent::Message(m) => m,
    };
    let expr = match parse_dice(msg.content.text.as_str()) {
        Some(e) => e,
        None => return None,
    };
    assert(expr.count * expr.sides <= 99 * 10000) by (nonlinear_arith)
        requires
            expr.count <= 99,
            expr.sides <= 10000,
    ;
    let mut rng = thread_rng();
    let text = roll(&expr, &mut rng);
    let mut evs: Vec<PluginEvent> = Vec::new();
    evs.push(
        PluginEvent::Message(
            MessageEvent { meta: copy_meta(&msg.meta), content: MessageContent { text } },
        ),
    );
    Some(evs)
}

} // verus!
