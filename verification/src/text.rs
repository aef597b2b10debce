//! Text building blocks: decimal numerals, joined lists, and the order of texts.

use vstd::prelude::*;
use vstd::std_specs::iter::IteratorSpec;
use vstd::string::*;

verus! {

/// The character that writes the decimal digit `d`.
pub open spec fn digit(d: int) -> char {
    if d == 0 {
        '0'
    } else if d == 1 {
        '1'
    } else if d == 2 {
        '2'
    } else if d == 3 {
        '3'
    } else if d == 4 {
        '4'
    } else if d == 5 {
        '5'
    } else if d == 6 {
        '6'
    } else if d == 7 {
        '7'
    } else if d == 8 {
        '8'
    } else {
        '9'
    }
}

/// The decimal numeral of `n`: most significant digit first, no sign, no padding.
pub open spec fn decimal(n: nat) -> Seq<char>
    decreases n,
{
    if n < 10 {
        seq![digit(n as int)]
    } else {
        decimal(n / 10).push(digit((n % 10) as int))
    }
}

/// The pieces of `parts` written one after another with `separator` between neighbours.
pub open spec fn joined(parts: Seq<Seq<char>>, separator: Seq<char>) -> Seq<char>
    decreases parts.len(),
{
    if parts.len() == 0 {
        Seq::empty()
    } else if parts.len() == 1 {
        parts[0]
    } else {
        joined(parts.drop_last(), separator) + separator + parts.last()
    }
}

/// How one value stands to another in an order.
#[derive(Clone, Copy, Debug, PartialEq, Eq, Hash, Structural)]
pub enum Order {
    Less,
    Equal,
    Greater,
}

/// How `left` stands to `right` in the order of texts: character by character, each by
/// its code point, and a text before every longer text that begins with it.
pub open spec fn text_order(left: Seq<char>, right: Seq<char>) -> Order
    decreases left.len(),
{
    if left.len() == 0 {
        if right.len() == 0 {
            Order::Equal
        } else {
            Order::Less
        }
    } else if right.len() == 0 {
        Order::Greater
    } else if (left[0] as u32) < (right[0] as u32) {
        Order::Less
    } else if (left[0] as u32) > (right[0] as u32) {
        Order::Greater
    } else {
        text_order(left.drop_first(), right.drop_first())
    }
}

/// Two texts are equal in the order exactly if they are the same text.
pub proof fn lemma_text_order_equal(left: Seq<char>, right: Seq<char>)
    ensures
        (text_order(left, right) == Order::Equal) == (left == right),
    decreases left.len(),
{
    if left.len() > 0 && right.len() > 0 {
        lemma_text_order_equal(left.drop_first(), right.drop_first());
        if left[0] as u32 == right[0] as u32 {
            vstd::utf8::char_u32_cast(left[0], left[0] as u32);
            vstd::utf8::char_u32_cast(right[0], right[0] as u32);
        }
        if left[0] == right[0] && left.drop_first() == right.drop_first() {
            assert(left =~= seq![left[0]] + left.drop_first());
            assert(right =~= seq![right[0]] + right.drop_first());
        }
    } else if left.len() == 0 && right.len() == 0 {
        assert(left =~= right);
    }
}

/// The order seen from the other side.
pub open spec fn reversed(order: Order) -> Order {
    match order {
        Order::Less => Order::Greater,
        Order::Equal => Order::Equal,
        Order::Greater => Order::Less,
    }
}

/// Seen from the other side, the order of two texts is the reverse.
pub proof fn lemma_text_order_reverses(left: Seq<char>, right: Seq<char>)
    ensures
        text_order(right, left) == reversed(text_order(left, right)),
    decreases left.len(),
{
    if left.len() > 0 && right.len() > 0 {
        lemma_text_order_reverses(left.drop_first(), right.drop_first());
    }
}

/// The order of texts is transitive: a text that is not after a second, which is not
/// after a third, is not after the third, and is before it if it is before the second
/// or the second before the third.
pub proof fn lemma_text_order_is_transitive(first: Seq<char>, second: Seq<char>, third: Seq<char>)
    requires
        text_order(first, second) != Order::Greater,
        text_order(second, third) != Order::Greater,
    ensures
        text_order(first, third) != Order::Greater,
        text_order(first, second) == Order::Less || text_order(second, third) == Order::Less
            ==> text_order(first, third) == Order::Less,
    decreases first.len(),
{
    if first.len() > 0 && second.len() > 0 && third.len() > 0 {
        if first[0] as u32 == second[0] as u32 && second[0] as u32 == third[0] as u32 {
            lemma_text_order_is_transitive(
                first.drop_first(),
                second.drop_first(),
                third.drop_first(),
            );
        }
    }
}

/// How `left` stands to `right` in the order of texts.
pub fn order_texts(left: &str, right: &str) -> (order: Order)
    ensures
        order == text_order(left@, right@),
{
    let mut ours = left.chars();
    let mut theirs = right.chars();
    loop
        invariant
            ours.decrease() is Some,
            text_order(left@, right@) == text_order(ours.remaining(), theirs.remaining()),
        decreases ours.decrease()->Some_0,
    {
        let mine = ours.next();
        let other = theirs.next();
        match (mine, other) {
            (None, None) => {
                return Order::Equal;
            },
            (None, Some(_)) => {
                return Order::Less;
            },
            (Some(_), None) => {
                return Order::Greater;
            },
            (Some(a), Some(b)) => {
                if (a as u32) < (b as u32) {
                    return Order::Less;
                } else if (a as u32) > (b as u32) {
                    return Order::Greater;
                }
            },
        }
    }
}

fn digit_text(d: usize) -> (text: &'static str)
    requires
        d < 10,
    ensures
        text@ == seq![digit(d as int)],
{
    proof {
        reveal_strlit("0");
        reveal_strlit("1");
        reveal_strlit("2");
        reveal_strlit("3");
        reveal_strlit("4");
        reveal_strlit("5");
        reveal_strlit("6");
        reveal_strlit("7");
        reveal_strlit("8");
        reveal_strlit("9");
    }
    let text = if d == 0 {
        "0"
    } else if d == 1 {
        "1"
    } else if d == 2 {
        "2"
    } else if d == 3 {
        "3"
    } else if d == 4 {
        "4"
    } else if d == 5 {
        "5"
    } else if d == 6 {
        "6"
    } else if d == 7 {
        "7"
    } else if d == 8 {
        "8"
    } else {
        "9"
    };
    assert(text@ =~= seq![digit(d as int)]);
    text
}

/// Writes `n` as a decimal numeral.
pub fn decimal_string(n: usize) -> (text: String)
    ensures
        text@ == decimal(n as nat),
    decreases n,
{
    if n < 10 {
        String::from_str(digit_text(n))
    } else {
        let mut text = decimal_string(n / 10);
        text.append(digit_text(n % 10));
        assert(text@ =~= decimal(n as nat));
        text
    }
}

/// Joins `parts` with `separator` between neighbours.
pub fn join(parts: &Vec<String>, separator: &str) -> (text: String)
    ensures
        text@ == joined(Seq::new(parts@.len(), |i: int| parts@[i]@), separator@),
{
    let ghost views = Seq::new(parts@.len(), |i: int| parts@[i]@);
    let mut text = String::new();
    let mut i: usize = 0;
    while i < parts.len()
        invariant
            i <= parts.len(),
            views == Seq::new(parts@.len(), |i: int| parts@[i]@),
            text@ == joined(views.take(i as int), separator@),
        decreases parts.len() - i,
    {
        if i > 0 {
            text.append(separator);
        }
        text.append(parts[i].as_str());
        proof {
            let before = views.take(i as int);
            let after = views.take(i + 1);
            assert(after.drop_last() =~= before);
            assert(after.last() == parts@[i as int]@);
            if i == 0 {
                assert(text@ =~= after[0]);
            }
        }
        i += 1;
    }
    assert(views.take(i as int) =~= views);
    text
}

} // verus!
