//! Serial terminals: numbering, console selection and transfer decisions.

use crate::serial::ns16550::TransBytesError;
use crate::text;
use vstd::prelude::*;

verus! {

// ---------------------------------------------------------------------------
// Numbering
// ---------------------------------------------------------------------------

/// Whether device `i` keeps its alias: it is the first with that alias.
pub open spec fn keeps_alias(aliases: Seq<Option<usize>>, i: int) -> bool {
    aliases[i] is Some && forall|j: int| 0 <= j < i ==> #[trigger] aliases[j] != aliases[i]
}

/// Whether some device has the number as its alias.
pub open spec fn is_alias(aliases: Seq<Option<usize>>, number: usize) -> bool {
    exists|j: int| 0 <= j < aliases.len() && #[trigger] aliases[j] == Some(number)
}

/// Whether a device before `i` that does not keep its alias has the number.
pub open spec fn given_before(
    aliases: Seq<Option<usize>>,
    numbers: Seq<Option<usize>>,
    i: int,
    number: usize,
) -> bool {
    exists|j: int|
        0 <= j < i && !keeps_alias(aliases, j) && #[trigger] numbers[j] == Some(number)
}

/// Whether `number` is not free for device `i`.
pub open spec fn occupied(
    aliases: Seq<Option<usize>>,
    numbers: Seq<Option<usize>>,
    i: int,
    number: usize,
) -> bool {
    is_alias(aliases, number) || given_before(aliases, numbers, i, number)
}

/// Whether `number` is the smallest that is free for device `i`.
pub open spec fn smallest_free(
    aliases: Seq<Option<usize>>,
    numbers: Seq<Option<usize>>,
    i: int,
    number: usize,
) -> bool {
    &&& !occupied(aliases, numbers, i, number)
    &&& forall|m: usize| m < number ==> #[trigger] occupied(aliases, numbers, i, m)
}

/// Whether device `i` has the number that it is due.
pub open spec fn numbered(
    aliases: Seq<Option<usize>>,
    numbers: Seq<Option<usize>>,
    i: int,
) -> bool {
    if keeps_alias(aliases, i) {
        numbers[i] == aliases[i]
    } else {
        numbers[i] matches Some(number) && smallest_free(aliases, numbers, i, number)
    }
}

/// Whether every device has the number that it is due: its alias if it is the
/// first with it, else the smallest number that is no alias and that no earlier
/// device was given.
pub open spec fn is_numbering(aliases: Seq<Option<usize>>, numbers: Seq<Option<usize>>) -> bool {
    &&& numbers.len() == aliases.len()
    &&& forall|i: int| 0 <= i < aliases.len() ==> #[trigger] numbered(aliases, numbers, i)
}

/// Whether a number is among the used ones.
fn contains_number(used: &Vec<usize>, number: usize) -> (found: bool)
    ensures
        found == used@.contains(number),
{
    let mut index: usize = 0;
    while index < used.len()
        invariant
            index <= used.len(),
            forall|j: int| 0 <= j < index ==> used@[j] != number,
        decreases used.len() - index,
    {
        if used[index] == number {
            assert(used@[index as int] == number);
            return true;
        }
        index = index + 1;
    }
    false
}

/// Numbers that are all used are no more than the used ones.
proof fn lemma_prefix_fits(used: Seq<usize>, count: nat)
    requires
        count <= usize::MAX + 1,
        forall|m: usize| m < count ==> #[trigger] used.contains(m),
    ensures
        count <= used.len(),
    decreases count,
{
    if count > 0 {
        let last = (count - 1) as usize;
        assert(used.contains(last));
        let at = choose|i: int| 0 <= i < used.len() && used[i] == last;
        let rest = used.remove(at);
        assert forall|m: usize| m < count - 1 implies #[trigger] rest.contains(m) by {
            assert(used.contains(m));
            let k = choose|i: int| 0 <= i < used.len() && used[i] == m;
            if k < at {
                assert(rest[k] == m);
            } else {
                assert(rest[k - 1] == m);
            }
        }
        lemma_prefix_fits(rest, (count - 1) as nat);
    }
}

/// How many devices have no number yet.
spec fn pending(numbers: Seq<Option<usize>>) -> nat
    decreases numbers.len(),
{
    if numbers.len() == 0 {
        0
    } else if numbers.last() is None {
        pending(numbers.drop_last()) + 1
    } else {
        pending(numbers.drop_last())
    }
}

/// Numbering a device leaves one fewer without number.
proof fn lemma_pending_drops(numbers: Seq<Option<usize>>, i: int, number: usize)
    requires
        0 <= i < numbers.len(),
        numbers[i] is None,
    ensures
        pending(numbers.update(i, Some(number))) + 1 == pending(numbers),
    decreases numbers.len(),
{
    let after = numbers.update(i, Some(number));
    if i == numbers.len() - 1 {
        assert(after.drop_last() =~= numbers.drop_last());
    } else {
        lemma_pending_drops(numbers.drop_last(), i, number);
        assert(after.drop_last() =~= numbers.drop_last().update(i, Some(number)));
    }
}

/// Assigns terminal numbers: aliases are kept by the first device that has
/// them, the other devices take the first free numbers.
pub fn assign_tty_numbers(alias_indices: &[Option<usize>]) -> (numbers: Vec<Option<usize>>)
    ensures
        is_numbering(alias_indices@, numbers@),
{
    let ghost aliases = alias_indices@;
    let count: usize = alias_indices.len();
    let mut assigned: Vec<Option<usize>> = Vec::new();
    let mut used: Vec<usize> = Vec::new();
    let mut device: usize = 0;
    while device < count
        invariant
            aliases == alias_indices@,
            count == aliases.len(),
            device <= count,
            assigned.len() == device,
            used.len() + pending(assigned@) <= device,
            forall|i: int|
                0 <= i < device ==> #[trigger] assigned@[i] == if keeps_alias(aliases, i) {
                    aliases[i]
                } else {
                    None
                },
            forall|m: usize|
                used@.contains(m) <==> exists|j: int|
                    0 <= j < device && #[trigger] aliases[j] == Some(m),
        decreases count - device,
    {
        let ghost before = used@;
        let ghost assigned_before = assigned@;
        match alias_indices[device] {
            Some(number) => {
                if contains_number(&used, number) {
                    assert(!keeps_alias(aliases, device as int));
                    assigned.push(None);
                } else {
                    assert(keeps_alias(aliases, device as int)) by {
                        assert forall|j: int| 0 <= j < device implies #[trigger] aliases[j]
                            != aliases[device as int] by {
                            if aliases[j] == aliases[device as int] {
                                assert(aliases[j] == Some(number));
                            }
                        }
                    }
                    assigned.push(Some(number));
                    used.push(number);
                }
                proof {
                    assert forall|m: usize|
                        used@.contains(m) <==> exists|j: int|
                            0 <= j < device + 1 && #[trigger] aliases[j] == Some(m) by {
                        if used@.contains(m) {
                            if before.contains(m) {
                                let j = choose|j: int|
                                    0 <= j < device && #[trigger] aliases[j] == Some(m);
                                assert(aliases[j] == Some(m));
                            } else {
                                assert(m == number);
                                assert(aliases[device as int] == Some(m));
                            }
                        }
                        if exists|j: int| 0 <= j < device + 1 && #[trigger] aliases[j] == Some(m) {
                            let j = choose|j: int|
                                0 <= j < device + 1 && #[trigger] aliases[j] == Some(m);
                            if j < device {
                                assert(before.contains(m));
                                let k = choose|k: int| 0 <= k < before.len() && before[k] == m;
                                assert(used@[k] == m);
                            } else {
                                assert(m == number);
                                if !before.contains(m) {
                                    assert(used@[used@.len() - 1] == m);
                                }
                            }
                        }
                    }
                }
            },
            None => {
                assigned.push(None);
                proof {
                    assert forall|m: usize|
                        used@.contains(m) <==> exists|j: int|
                            0 <= j < device + 1 && #[trigger] aliases[j] == Some(m) by {
                        if used@.contains(m) {
                            let j = choose|j: int|
                                0 <= j < device && #[trigger] aliases[j] == Some(m);
                            assert(aliases[j] == Some(m));
                        }
                    }
                }
            },
        }
        assert(assigned@.drop_last() =~= assigned_before);
        device = device + 1;
    }
    proof {
        assert forall|m: usize| used@.contains(m) <==> occupied(aliases, assigned@, 0, m) by {
            if used@.contains(m) {
                let j = choose|j: int| 0 <= j < device && #[trigger] aliases[j] == Some(m);
                assert(aliases[j] == Some(m));
            }
        }
    }
    let mut next: usize = 0;
    let mut index: usize = 0;
    while index < count
        invariant
            count == aliases.len(),
            index <= count,
            assigned.len() == count,
            used.len() + pending(assigned@) <= count,
            forall|i: int| 0 <= i < index ==> #[trigger] numbered(aliases, assigned@, i),
            forall|i: int|
                index <= i < count ==> #[trigger] assigned@[i] == if keeps_alias(aliases, i) {
                    aliases[i]
                } else {
                    None
                },
            forall|m: usize|
                used@.contains(m) <==> #[trigger] occupied(aliases, assigned@, index as int, m),
            forall|m: usize| m < next ==> #[trigger] used@.contains(m),
        decreases count - index,
    {
        if assigned[index].is_some() {
            proof {
                assert(assigned@[index as int] is Some);
                assert(keeps_alias(aliases, index as int));
                assert(numbered(aliases, assigned@, index as int));
                assert forall|m: usize|
                    used@.contains(m) <==> #[trigger] occupied(
                        aliases,
                        assigned@,
                        index + 1,
                        m,
                    ) by {
                    lemma_kept_adds_nothing(aliases, assigned@, index as int, m);
                    assert(used@.contains(m) <==> occupied(aliases, assigned@, index as int, m));
                }
            }
            index = index + 1;
            continue;
        }
        assert(!keeps_alias(aliases, index as int));
        proof {
            lemma_pending_drops(assigned@, index as int, 0);
        }
        while contains_number(&used, next)
            invariant
                used.len() < count,
                forall|m: usize| m < next ==> #[trigger] used@.contains(m),
            decreases usize::MAX - next,
        {
            proof {
                lemma_prefix_fits(used@, (next + 1) as nat);
            }
            next = next + 1;
        }
        let ghost before = assigned@;
        let ghost used_before = used@;
        proof {
            lemma_pending_drops(assigned@, index as int, next);
        }
        assigned.set(index, Some(next));
        used.push(next);
        proof {
            assert forall|i: int, m: usize| 0 <= i <= index implies (#[trigger] occupied(
                aliases,
                assigned@,
                i,
                m,
            ) <==> occupied(aliases, before, i, m)) by {
                lemma_later_numbers_do_not_count(aliases, before, assigned@, i, m);
            }
            assert(numbered(aliases, assigned@, index as int)) by {
                assert(!occupied(aliases, before, index as int, next));
                assert forall|m: usize| m < next implies #[trigger] occupied(
                    aliases,
                    assigned@,
                    index as int,
                    m,
                ) by {
                    assert(used_before.contains(m));
                    assert(occupied(aliases, before, index as int, m));
                }
            }
            assert forall|i: int| 0 <= i < index implies #[trigger] numbered(
                aliases,
                assigned@,
                i,
            ) by {
                assert(numbered(aliases, before, i));
                assert(assigned@[i] == before[i]);
                if !keeps_alias(aliases, i) {
                    let number = before[i]->0;
                    assert(occupied(aliases, assigned@, i, number) <==> occupied(
                        aliases,
                        before,
                        i,
                        number,
                    ));
                    assert forall|m: usize| m < number implies #[trigger] occupied(
                        aliases,
                        assigned@,
                        i,
                        m,
                    ) by {
                        assert(occupied(aliases, before, i, m));
                    }
                }
            }
            assert forall|m: usize|
                used@.contains(m) <==> #[trigger] occupied(aliases, assigned@, index + 1, m) by {
                assert(used_before.contains(m) <==> occupied(aliases, before, index as int, m));
                assert(occupied(aliases, assigned@, index as int, m) <==> occupied(
                    aliases,
                    before,
                    index as int,
                    m,
                ));
                if used@.contains(m) {
                    if used_before.contains(m) {
                        if given_before(aliases, assigned@, index as int, m) {
                            let j = choose|j: int|
                                0 <= j < index && !keeps_alias(aliases, j) && #[trigger] assigned@[j]
                                    == Some(m);
                            assert(assigned@[j] == Some(m));
                        }
                    } else {
                        assert(m == next);
                        assert(assigned@[index as int] == Some(m));
                    }
                }
                if occupied(aliases, assigned@, index + 1, m) {
                    if given_before(aliases, assigned@, index + 1, m) {
                        let j = choose|j: int|
                            0 <= j < index + 1 && !keeps_alias(aliases, j) && #[trigger] assigned@[j]
                                == Some(m);
                        if j < index {
                            assert(given_before(aliases, assigned@, index as int, m));
                        } else {
                            assert(m == next);
                        }
                    }
                    if used_before.contains(m) {
                        let k = choose|k: int| 0 <= k < used_before.len() && used_before[k] == m;
                        assert(used@[k] == m);
                    } else {
                        assert(m == next);
                        assert(used@[used@.len() - 1] == m);
                    }
                }
            }
            assert forall|m: usize| m < next implies #[trigger] used@.contains(m) by {
                assert(used_before.contains(m));
                let k = choose|k: int| 0 <= k < used_before.len() && used_before[k] == m;
                assert(used@[k] == m);
            }
        }
        index = index + 1;
    }
    assigned
}

/// A device that keeps its alias occupies no further number.
proof fn lemma_kept_adds_nothing(
    aliases: Seq<Option<usize>>,
    numbers: Seq<Option<usize>>,
    i: int,
    m: usize,
)
    requires
        0 <= i,
        keeps_alias(aliases, i),
    ensures
        occupied(aliases, numbers, i + 1, m) == occupied(aliases, numbers, i, m),
{
    if given_before(aliases, numbers, i + 1, m) {
        let j = choose|j: int|
            0 <= j < i + 1 && !keeps_alias(aliases, j) && #[trigger] numbers[j] == Some(m);
        assert(numbers[j] == Some(m));
        assert(given_before(aliases, numbers, i, m));
    }
    if given_before(aliases, numbers, i, m) {
        let j = choose|j: int|
            0 <= j < i && !keeps_alias(aliases, j) && #[trigger] numbers[j] == Some(m);
        assert(numbers[j] == Some(m));
    }
}

/// What is occupied for a device depends on the numbers before it alone.
proof fn lemma_later_numbers_do_not_count(
    aliases: Seq<Option<usize>>,
    left: Seq<Option<usize>>,
    right: Seq<Option<usize>>,
    i: int,
    m: usize,
)
    requires
        forall|j: int| 0 <= j < i ==> left[j] == #[trigger] right[j],
    ensures
        occupied(aliases, left, i, m) == occupied(aliases, right, i, m),
{
    if given_before(aliases, left, i, m) {
        let j = choose|j: int|
            0 <= j < i && !keeps_alias(aliases, j) && #[trigger] left[j] == Some(m);
        assert(right[j] == Some(m));
    }
    if given_before(aliases, right, i, m) {
        let j = choose|j: int|
            0 <= j < i && !keeps_alias(aliases, j) && #[trigger] right[j] == Some(m);
        assert(left[j] == Some(m));
    }
}

/// **Law.** No two devices get the same number.
pub proof fn law_terminal_numbers_are_distinct(
    aliases: Seq<Option<usize>>,
    numbers: Seq<Option<usize>>,
    i: int,
    j: int,
)
    requires
        is_numbering(aliases, numbers),
        0 <= i < j < aliases.len(),
    ensures
        numbers[i] is Some,
        numbers[i] != numbers[j],
{
    assert(numbered(aliases, numbers, i));
    assert(numbered(aliases, numbers, j));
    if keeps_alias(aliases, j) {
        if keeps_alias(aliases, i) {
            assert(aliases[i] != aliases[j]);
        } else if numbers[i] == numbers[j] {
            assert(aliases[j] == numbers[i]);
            assert(is_alias(aliases, numbers[i]->0));
        }
    } else {
        let number = numbers[j]->0;
        if numbers[i] == numbers[j] {
            if keeps_alias(aliases, i) {
                assert(aliases[i] == Some(number));
                assert(is_alias(aliases, number));
            } else {
                assert(numbers[i] == Some(number));
                assert(given_before(aliases, numbers, j, number));
            }
        }
    }
}

/// **Law.** The aliases alone decide the numbers.
pub proof fn law_numbering_is_unique(
    aliases: Seq<Option<usize>>,
    left: Seq<Option<usize>>,
    right: Seq<Option<usize>>,
)
    requires
        is_numbering(aliases, left),
        is_numbering(aliases, right),
    ensures
        left == right,
{
    assert forall|i: int| 0 <= i < aliases.len() implies #[trigger] left[i] == right[i] by {
        lemma_same_number(aliases, left, right, i);
    }
    assert(left =~= right);
}

proof fn lemma_same_number(
    aliases: Seq<Option<usize>>,
    left: Seq<Option<usize>>,
    right: Seq<Option<usize>>,
    i: int,
)
    requires
        is_numbering(aliases, left),
        is_numbering(aliases, right),
        0 <= i < aliases.len(),
    ensures
        left[i] == right[i],
    decreases i,
{
    assert forall|j: int| 0 <= j < i implies left[j] == #[trigger] right[j] by {
        lemma_same_number(aliases, left, right, j);
    }
    assert(numbered(aliases, left, i));
    assert(numbered(aliases, right, i));
    if !keeps_alias(aliases, i) {
        let a = left[i]->0;
        let b = right[i]->0;
        lemma_later_numbers_do_not_count(aliases, left, right, i, a);
        lemma_later_numbers_do_not_count(aliases, left, right, i, b);
        if a < b {
            assert(occupied(aliases, right, i, a));
        }
        if b < a {
            assert(occupied(aliases, left, i, b));
        }
    }
}

// ---------------------------------------------------------------------------
// Console selection
// ---------------------------------------------------------------------------

/// The value of a decimal digit.
pub open spec fn digit_value(c: char) -> Option<nat> {
    if '0' <= c && c <= '9' {
        Some((c as int - '0' as int) as nat)
    } else {
        None
    }
}

/// The value of a row of decimal digits.
pub open spec fn decimal(digits: Seq<char>) -> Option<nat>
    decreases digits.len(),
{
    if digits.len() == 0 {
        Some(0)
    } else {
        match (decimal(digits.drop_last()), digit_value(digits.last())) {
            (Some(value), Some(digit)) => Some(10 * value + digit),
            _ => None,
        }
    }
}

/// The number that a text holds: decimal digits, at least one, after an
/// optional plus sign.
pub open spec fn number_in(chars: Seq<char>) -> Option<usize> {
    let digits = if chars.len() > 0 && chars[0] == '+' {
        chars.skip(1)
    } else {
        chars
    };
    if digits.len() == 0 {
        None
    } else {
        match decimal(digits) {
            Some(value) => if value <= usize::MAX {
                Some(value as usize)
            } else {
                None
            },
            None => None,
        }
    }
}

/// The text before the first comma from `from` on.
pub open spec fn before_comma(chars: Seq<char>, from: int) -> Seq<char>
    decreases chars.len() - from,
{
    if from < 0 || from >= chars.len() {
        chars
    } else if chars[from] == ',' {
        chars.take(from)
    } else {
        before_comma(chars, from + 1)
    }
}

/// The terminal number of a console specification `ttyS<number>[,options]`.
pub open spec fn serial_console(chars: Seq<char>) -> Option<usize> {
    let name = before_comma(chars, 0);
    if "ttyS"@.is_prefix_of(name) {
        number_in(name.skip("ttyS"@.len() as int))
    } else {
        None
    }
}

/// The terminal number of a boot argument.
pub open spec fn console_argument(word: Seq<char>) -> Option<usize> {
    if "console="@.is_prefix_of(word) {
        serial_console(word.skip("console="@.len() as int))
    } else {
        None
    }
}

/// Whether a character separates boot arguments.
pub open spec fn is_separator(c: char) -> bool {
    c == ' ' || c == '\t' || c == '\n' || c == '\r' || c == '\u{c}'
}

/// A word as a list, without empty words.
pub open spec fn as_word(word: Seq<char>) -> Seq<Seq<char>> {
    if word.len() == 0 {
        Seq::empty()
    } else {
        seq![word]
    }
}

/// The words of a text from `at` on, after the word begun before.
pub open spec fn words(chars: Seq<char>, at: int, word: Seq<char>) -> Seq<Seq<char>>
    decreases chars.len() - at,
{
    if at < 0 || at >= chars.len() {
        as_word(word)
    } else if is_separator(chars[at]) {
        as_word(word) + words(chars, at + 1, Seq::empty())
    } else {
        words(chars, at + 1, word.push(chars[at]))
    }
}

/// The terminal number of the first argument that names a serial console.
pub open spec fn first_console(arguments: Seq<Seq<char>>) -> Option<usize>
    decreases arguments.len(),
{
    if arguments.len() == 0 {
        None
    } else {
        match console_argument(arguments[0]) {
            Some(number) => Some(number),
            None => first_console(arguments.drop_first()),
        }
    }
}

/// The terminal that boot arguments select as console.
pub open spec fn selected(bootargs: Option<&str>) -> Option<usize> {
    match bootargs {
        Some(bootargs) => first_console(words(bootargs@, 0, Seq::empty())),
        None => None,
    }
}

/// Longer rows of digits have no smaller values.
proof fn lemma_decimal_grows(digits: Seq<char>, count: int)
    requires
        0 <= count <= digits.len(),
    ensures
        match (decimal(digits.take(count)), decimal(digits)) {
            (Some(part), Some(whole)) => part <= whole,
            (None, whole) => whole is None,
            _ => true,
        },
    decreases digits.len(),
{
    if count == digits.len() {
        assert(digits.take(count) =~= digits);
    } else {
        lemma_decimal_grows(digits.drop_last(), count);
        assert(digits.drop_last().take(count) =~= digits.take(count));
    }
}

fn parse_number(chars: &Vec<char>) -> (number: Option<usize>)
    ensures
        number == number_in(chars@),
{
    let start: usize = if chars.len() > 0 && chars[0] == '+' {
        1
    } else {
        0
    };
    if chars.len() == start {
        return None;
    }
    let ghost digits = chars@.skip(start as int);
    assert(start == 0 ==> digits =~= chars@);
    let mut value: usize = 0;
    let mut index: usize = start;
    assert(digits.take(0) =~= Seq::<char>::empty());
    while index < chars.len()
        invariant
            start <= index <= chars.len(),
            start < chars.len(),
            digits == chars@.skip(start as int),
            number_in(chars@) == match decimal(digits) {
                Some(value) => if value <= usize::MAX {
                    Some(value as usize)
                } else {
                    None
                },
                None => None,
            },
            decimal(digits.take(index - start)) == Some(value as nat),
        decreases chars.len() - index,
    {
        let c = chars[index];
        let ghost longer = digits.take(index - start + 1);
        proof {
            assert(longer.drop_last() =~= digits.take(index - start));
            assert(longer.last() == c);
            lemma_decimal_grows(digits, index - start + 1);
        }
        if c < '0' || c > '9' {
            return None;
        }
        let digit: usize = (c as u32 - '0' as u32) as usize;
        if value > (usize::MAX - digit) / 10 {
            assert(10 * value + digit > usize::MAX);
            return None;
        }
        value = 10 * value + digit;
        index = index + 1;
    }
    assert(digits.take(index - start) =~= digits);
    Some(value)
}

/// The rest of a text after a prefix that it begins with.
fn strip_prefix(chars: &Vec<char>, prefix: &str) -> (rest: Option<Vec<char>>)
    ensures
        match rest {
            Some(rest) => prefix@.is_prefix_of(chars@) && rest@ == chars@.skip(
                prefix@.len() as int,
            ),
            None => !prefix@.is_prefix_of(chars@),
        },
{
    let length: usize = prefix.unicode_len();
    if chars.len() < length {
        return None;
    }
    let mut index: usize = 0;
    while index < length
        invariant
            length == prefix@.len(),
            length <= chars.len(),
            index <= length,
            forall|i: int| 0 <= i < index ==> prefix@[i] == chars@[i],
        decreases length - index,
    {
        if prefix.get_char(index) != chars[index] {
            assert(chars@.subrange(0, length as int)[index as int] == chars@[index as int]);
            return None;
        }
        index = index + 1;
    }
    assert(prefix@ =~= chars@.subrange(0, length as int));
    let mut rest: Vec<char> = Vec::new();
    while index < chars.len()
        invariant
            length <= index <= chars.len(),
            rest@ == chars@.subrange(length as int, index as int),
        decreases chars.len() - index,
    {
        rest.push(chars[index]);
        index = index + 1;
        assert(rest@ =~= chars@.subrange(length as int, index as int));
    }
    assert(rest@ =~= chars@.skip(length as int));
    Some(rest)
}

/// Reads a console specification `ttyS<number>[,options]`.
fn parse_serial_console(spec_chars: &Vec<char>) -> (number: Option<usize>)
    ensures
        number == serial_console(spec_chars@),
{
    let mut name: Vec<char> = Vec::new();
    let mut index: usize = 0;
    while index < spec_chars.len() && spec_chars[index] != ','
        invariant
            index <= spec_chars.len(),
            name@ == spec_chars@.take(index as int),
            before_comma(spec_chars@, 0) == before_comma(spec_chars@, index as int),
        decreases spec_chars.len() - index,
    {
        name.push(spec_chars[index]);
        index = index + 1;
        assert(name@ =~= spec_chars@.take(index as int));
    }
    assert(name@ == before_comma(spec_chars@, 0)) by {
        assert(spec_chars@.take(spec_chars@.len() as int) =~= spec_chars@);
    }
    match strip_prefix(&name, "ttyS") {
        Some(digits) => parse_number(&digits),
        None => None,
    }
}

fn console_word(word: &Vec<char>) -> (number: Option<usize>)
    ensures
        number == console_argument(word@),
{
    match strip_prefix(word, "console=") {
        Some(rest) => parse_serial_console(&rest),
        None => None,
    }
}

/// The first console of a list that begins with at most one word.
proof fn lemma_first_console(word: Seq<char>, rest: Seq<Seq<char>>)
    ensures
        word.len() == 0 ==> first_console(as_word(word) + rest) == first_console(rest),
        word.len() > 0 ==> first_console(as_word(word) + rest) == match console_argument(word) {
            Some(number) => Some(number),
            None => first_console(rest),
        },
{
    if word.len() == 0 {
        assert(as_word(word) + rest =~= rest);
    } else {
        assert((as_word(word) + rest)[0] == word);
        assert((as_word(word) + rest).drop_first() =~= rest);
    }
}

/// Returns the terminal that boot arguments select as console: the first
/// argument `console=ttyS<number>` counts.
pub fn selected_console_tty(bootargs: Option<&str>) -> (number: Option<usize>)
    ensures
        number == selected(bootargs),
{
    let ghost goal = selected(bootargs);
    let arguments = match bootargs {
        Some(arguments) => arguments,
        None => {
            return None;
        },
    };
    let chars = text::chars_of(arguments);
    let mut word: Vec<char> = Vec::new();
    let mut index: usize = 0;
    while index < chars.len()
        invariant
            index <= chars.len(),
            goal == selected(bootargs),
            goal == first_console(words(chars@, index as int, word@)),
        decreases chars.len() - index,
    {
        let c = chars[index];
        if c == ' ' || c == '\t' || c == '\n' || c == '\r' || c == '\u{c}' {
            proof {
                lemma_first_console(word@, words(chars@, index + 1, Seq::empty()));
            }
            if word.len() > 0 {
                let found = console_word(&word);
                if found.is_some() {
                    return found;
                }
            }
            word = Vec::new();
        } else {
            word.push(c);
        }
        index = index + 1;
    }
    proof {
        lemma_first_console(word@, Seq::empty());
        assert(as_word(word@) + Seq::<Seq<char>>::empty() =~= as_word(word@));
    }
    if word.len() > 0 {
        console_word(&word)
    } else {
        None
    }
}

// ---------------------------------------------------------------------------
// The registry
// ---------------------------------------------------------------------------

/// A discovered serial device: its handle, its alias number, the halves that
/// could be taken, its interrupt, and whether the platform accepted a handler
/// for that interrupt.
#[derive(Clone, Copy, Debug, PartialEq, Eq, Structural)]
pub struct SerialDevice {
    pub device: usize,
    pub alias_index: Option<usize>,
    pub tx: Option<usize>,
    pub rx: Option<usize>,
    pub irq_handler: Option<usize>,
    pub irq_num: Option<usize>,
    pub irq_registered: bool,
}

/// How input reaches a terminal.
#[derive(Clone, Copy, Debug, PartialEq, Eq, Structural)]
pub enum ProcessMode {
    /// Readers poll.
    Manual,
    /// Interrupts wake readers.
    InterruptDriven,
}

/// A terminal cannot be created.
#[derive(Clone, Copy, Debug, PartialEq, Eq, Structural)]
pub enum SerialTtyError {
    /// A half of the device is already in use.
    BadState,
}

/// One serial terminal.
#[derive(Clone, Copy, Debug, PartialEq, Eq, Structural)]
pub struct SerialTtyEntry {
    pub number: usize,
    pub tty: usize,
    pub tx: usize,
    pub rx: usize,
    pub process_mode: ProcessMode,
}

/// All serial terminals, ordered by number, and the one that is the console.
#[derive(Debug)]
pub struct SerialRegistry {
    pub entries: Vec<SerialTtyEntry>,
    pub console_index: Option<usize>,
}

/// How input of a device reaches its terminal: by interrupt if the device has
/// one, a handler for it, and the platform accepted the handler.
pub open spec fn mode_of(serial: SerialDevice) -> ProcessMode {
    if serial.irq_num is Some && serial.irq_handler is Some && serial.irq_registered {
        ProcessMode::InterruptDriven
    } else {
        ProcessMode::Manual
    }
}

/// The terminal of a device, if its halves could be taken.
pub open spec fn entry_of(number: usize, serial: SerialDevice) -> Option<SerialTtyEntry> {
    match (serial.tx, serial.rx) {
        (Some(tx), Some(rx)) => Some(
            SerialTtyEntry { number, tty: serial.device, tx, rx, process_mode: mode_of(serial) },
        ),
        _ => None,
    }
}

/// The aliases of devices.
pub open spec fn aliases_of(serials: Seq<SerialDevice>) -> Seq<Option<usize>> {
    Seq::new(serials.len(), |i: int| serials[i].alias_index)
}

/// The terminal of device `i`.
pub open spec fn terminal_of(
    serials: Seq<SerialDevice>,
    numbers: Seq<Option<usize>>,
    i: int,
) -> Option<SerialTtyEntry> {
    match numbers[i] {
        Some(number) => entry_of(number, serials[i]),
        None => None,
    }
}

/// Whether one of the first `count` devices has the terminal.
pub open spec fn is_terminal(
    serials: Seq<SerialDevice>,
    numbers: Seq<Option<usize>>,
    count: int,
    entry: SerialTtyEntry,
) -> bool {
    exists|i: int| 0 <= i < count && #[trigger] terminal_of(serials, numbers, i) == Some(entry)
}

/// Whether terminals are ordered by number, none twice.
pub open spec fn is_ordered(entries: Seq<SerialTtyEntry>) -> bool {
    forall|i: int, j: int|
        0 <= i < j < entries.len() ==> (#[trigger] entries[i]).number < (
        #[trigger] entries[j]).number
}

/// Whether the terminals are exactly those of the first `count` devices, in
/// order.
pub open spec fn lists(
    entries: Seq<SerialTtyEntry>,
    serials: Seq<SerialDevice>,
    numbers: Seq<Option<usize>>,
    count: int,
) -> bool {
    &&& is_ordered(entries)
    &&& forall|k: int|
        0 <= k < entries.len() ==> is_terminal(serials, numbers, count, #[trigger] entries[k])
    &&& forall|i: int|
        0 <= i < count ==> match #[trigger] terminal_of(serials, numbers, i) {
            Some(entry) => entries.contains(entry),
            None => true,
        }
}

/// Whether `index` is the place of the selected terminal, if it exists.
pub open spec fn is_console(
    entries: Seq<SerialTtyEntry>,
    number: Option<usize>,
    index: Option<usize>,
) -> bool {
    match (number, index) {
        (Some(number), Some(index)) => index < entries.len() && entries[index as int].number
            == number,
        (Some(number), None) => forall|k: int|
            0 <= k < entries.len() ==> (#[trigger] entries[k]).number != number,
        (None, index) => index is None,
    }
}

impl SerialTtyEntry {
    /// Returns the number of the terminal.
    pub fn number(&self) -> (number: usize)
        ensures
            number == self.number,
    {
        self.number
    }

    /// Returns the handle of the terminal.
    pub fn tty(&self) -> (tty: usize)
        ensures
            tty == self.tty,
    {
        self.tty
    }

    /// Returns the name of the terminal.
    pub fn tty_name(&self) -> (name: String)
        ensures
            name@ == "ttyS"@ + text::dec_text(self.number as nat),
    {
        let mut name = text::text_of("ttyS");
        text::push_dec(&mut name, self.number as u64);
        name
    }
}

/// Decides how input of a device reaches its terminal.
pub fn serial_process_mode(serial: &SerialDevice) -> (mode: ProcessMode)
    ensures
        mode == mode_of(*serial),
{
    if serial.irq_num.is_none() {
        return ProcessMode::Manual;
    }
    if serial.irq_handler.is_none() {
        return ProcessMode::Manual;
    }
    if !serial.irq_registered {
        return ProcessMode::Manual;
    }
    ProcessMode::InterruptDriven
}

/// Creates the terminal of a device.
pub fn new_serial_tty(number: usize, serial: &SerialDevice) -> (entry: Result<
    SerialTtyEntry,
    SerialTtyError,
>)
    ensures
        match entry {
            Ok(entry) => entry_of(number, *serial) == Some(entry),
            Err(error) => entry_of(number, *serial) is None && error == SerialTtyError::BadState,
        },
{
    let tx: usize = match serial.tx {
        Some(tx) => tx,
        None => {
            return Err(SerialTtyError::BadState);
        },
    };
    let rx: usize = match serial.rx {
        Some(rx) => rx,
        None => {
            return Err(SerialTtyError::BadState);
        },
    };
    Ok(
        SerialTtyEntry {
            number,
            tty: serial.device,
            tx,
            rx,
            process_mode: serial_process_mode(serial),
        },
    )
}

/// Inserts a terminal at its place in the order.
fn insert_entry(entries: &mut Vec<SerialTtyEntry>, entry: SerialTtyEntry)
    requires
        is_ordered(old(entries)@),
        forall|k: int|
            0 <= k < old(entries)@.len() ==> (#[trigger] old(entries)@[k]).number != entry.number,
    ensures
        is_ordered(final(entries)@),
        forall|e: SerialTtyEntry|
            #![trigger final(entries)@.contains(e)]
            final(entries)@.contains(e) <==> (e == entry || old(entries)@.contains(e)),
{
    let ghost before = entries@;
    let mut place: usize = 0;
    while place < entries.len() && entries[place].number < entry.number
        invariant
            entries@ == before,
            place <= entries.len(),
            forall|k: int| 0 <= k < place ==> (#[trigger] before[k]).number < entry.number,
        decreases entries.len() - place,
    {
        place = place + 1;
    }
    entries.insert(place, entry);
    proof {
        assert(entries@ == before.insert(place as int, entry));
        assert forall|i: int, j: int| 0 <= i < j < entries@.len() implies (
        #[trigger] entries@[i]).number < (#[trigger] entries@[j]).number by {
            let old_i = if i < place {
                i
            } else {
                i - 1
            };
            let old_j = if j < place {
                j
            } else {
                j - 1
            };
            if i == place {
                assert(before[old_j].number >= before[place as int].number);
            } else if j == place {
                assert(before[old_i].number < entry.number);
            } else {
                assert(before[old_i].number < before[old_j].number);
            }
        }
        assert forall|e: SerialTtyEntry|
            #![trigger entries@.contains(e)]
            entries@.contains(e) <==> (e == entry || before.contains(e)) by {
            if entries@.contains(e) {
                let k = choose|k: int| 0 <= k < entries@.len() && entries@[k] == e;
                if k < place {
                    assert(before[k] == e);
                } else if k > place {
                    assert(before[k - 1] == e);
                }
            }
            if e == entry {
                assert(entries@[place as int] == e);
            }
            if before.contains(e) {
                let k = choose|k: int| 0 <= k < before.len() && before[k] == e;
                if k < place {
                    assert(entries@[k] == e);
                } else {
                    assert(entries@[k + 1] == e);
                }
            }
        }
    }
}

impl SerialRegistry {
    /// Numbers the discovered devices, creates their terminals, and finds the
    /// console that the boot arguments select.
    ///
    /// Devices whose halves are in use have no terminal.
    pub fn discover(serials: &Vec<SerialDevice>, bootargs: Option<&str>) -> (registry: Self)
        ensures
            exists|numbers: Seq<Option<usize>>|
                is_numbering(aliases_of(serials@), numbers) && #[trigger] lists(
                    registry.entries@,
                    serials@,
                    numbers,
                    serials@.len() as int,
                ),
            is_console(registry.entries@, selected(bootargs), registry.console_index),
    {
        let mut aliases: Vec<Option<usize>> = Vec::new();
        let mut index: usize = 0;
        while index < serials.len()
            invariant
                index <= serials.len(),
                aliases@ == aliases_of(serials@).take(index as int),
            decreases serials.len() - index,
        {
            aliases.push(serials[index].alias_index);
            index = index + 1;
            assert(aliases@ =~= aliases_of(serials@).take(index as int));
        }
        assert(aliases@ =~= aliases_of(serials@));
        let numbers = assign_tty_numbers(aliases.as_slice());
        let mut entries: Vec<SerialTtyEntry> = Vec::new();
        index = 0;
        while index < serials.len()
            invariant
                index <= serials.len(),
                numbers.len() == serials.len(),
                is_numbering(aliases_of(serials@), numbers@),
                lists(entries@, serials@, numbers@, index as int),
            decreases serials.len() - index,
        {
            let ghost before = entries@;
            if let Some(number) = numbers[index] {
                if let Ok(entry) = new_serial_tty(number, &serials[index]) {
                    proof {
                        assert forall|k: int| 0 <= k < entries@.len() implies (
                        #[trigger] entries@[k]).number != entry.number by {
                            let i = choose|i: int|
                                0 <= i < index && #[trigger] terminal_of(serials@, numbers@, i)
                                    == Some(entries@[k]);
                            law_terminal_numbers_are_distinct(
                                aliases_of(serials@),
                                numbers@,
                                i,
                                index as int,
                            );
                        }
                    }
                    insert_entry(&mut entries, entry);
                }
            }
            proof {
                lemma_one_more_device(before, entries@, serials@, numbers@, index as int);
            }
            index = index + 1;
        }
        let selected_number = selected_console_tty(bootargs);
        let console_index = match selected_number {
            Some(number) => position_of(&entries, number),
            None => None,
        };
        let registry = SerialRegistry { entries, console_index };
        assert(is_numbering(aliases_of(serials@), numbers@) && lists(
            registry.entries@,
            serials@,
            numbers@,
            serials@.len() as int,
        ));
        registry
    }

    /// Returns the terminals.
    pub fn entries(&self) -> (entries: &Vec<SerialTtyEntry>)
        ensures
            entries@ == self.entries@,
    {
        &self.entries
    }

    /// Returns the console terminal; without one the kernel terminal takes its
    /// place.
    pub fn console_device(&self) -> (tty: Option<usize>)
        ensures
            tty == match self.console_index {
                Some(index) => if index < self.entries@.len() {
                    Some(self.entries@[index as int].tty)
                } else {
                    None
                },
                None => None,
            },
    {
        match self.console_index {
            Some(index) => if index < self.entries.len() {
                Some(self.entries[index].tty)
            } else {
                None
            },
            None => None,
        }
    }
}

proof fn lemma_one_more_device(
    before: Seq<SerialTtyEntry>,
    after: Seq<SerialTtyEntry>,
    serials: Seq<SerialDevice>,
    numbers: Seq<Option<usize>>,
    count: int,
)
    requires
        0 <= count,
        lists(before, serials, numbers, count),
        is_ordered(after),
        match terminal_of(serials, numbers, count) {
            Some(entry) => forall|e: SerialTtyEntry|
                #![trigger after.contains(e)]
                after.contains(e) <==> (e == entry || before.contains(e)),
            None => after == before,
        },
    ensures
        lists(after, serials, numbers, count + 1),
{
    assert forall|k: int| 0 <= k < after.len() implies is_terminal(
        serials,
        numbers,
        count + 1,
        #[trigger] after[k],
    ) by {
        assert(after.contains(after[k]));
        if before.contains(after[k]) {
            let j = choose|j: int| 0 <= j < before.len() && before[j] == after[k];
            assert(is_terminal(serials, numbers, count, before[j]));
            let i = choose|i: int|
                0 <= i < count && #[trigger] terminal_of(serials, numbers, i) == Some(before[j]);
            assert(terminal_of(serials, numbers, i) == Some(after[k]));
        } else {
            assert(terminal_of(serials, numbers, count) == Some(after[k]));
        }
    }
    assert forall|i: int| 0 <= i < count + 1 implies match #[trigger] terminal_of(
        serials,
        numbers,
        i,
    ) {
        Some(entry) => after.contains(entry),
        None => true,
    } by {
        if i < count {
            if let Some(entry) = terminal_of(serials, numbers, i) {
                assert(before.contains(entry));
                assert(after.contains(entry));
            }
        } else if let Some(entry) = terminal_of(serials, numbers, count) {
            assert(after.contains(entry));
        }
    }
}

/// Finds the terminal with a number.
fn position_of(entries: &Vec<SerialTtyEntry>, number: usize) -> (index: Option<usize>)
    ensures
        is_console(entries@, Some(number), index),
{
    let mut index: usize = 0;
    while index < entries.len()
        invariant
            index <= entries.len(),
            forall|k: int| 0 <= k < index ==> (#[trigger] entries@[k]).number != number,
        decreases entries.len() - index,
    {
        if entries[index].number == number {
            return Some(index);
        }
        index = index + 1;
    }
    None
}

/// Returns the terminals of a registry.
pub fn serial_tty_entries(registry: &SerialRegistry) -> (entries: &Vec<SerialTtyEntry>)
    ensures
        entries@ == registry.entries@,
{
    registry.entries()
}

// ---------------------------------------------------------------------------
// Transfers
// ---------------------------------------------------------------------------

/// What follows a partial transfer.
#[derive(Clone, Copy, Debug, PartialEq, Eq, Structural)]
pub enum TransferStep {
    /// Every byte is out.
    Done,
    /// Bytes are left from this offset on.
    More(usize),
    /// The device took nothing; let others run and try again from this offset.
    Wait(usize),
}

/// Decides what follows after the device took `accepted` of the bytes that were
/// left after `written` of `length`.
pub fn transfer_step(written: usize, accepted: usize, length: usize) -> (step: TransferStep)
    requires
        written + accepted <= length,
    ensures
        step == if written + accepted == length {
            TransferStep::Done
        } else if accepted == 0 {
            TransferStep::Wait(written)
        } else {
            TransferStep::More((written + accepted) as usize)
        },
{
    let total: usize = written + accepted;
    if total == length {
        TransferStep::Done
    } else if accepted == 0 {
        TransferStep::Wait(written)
    } else {
        TransferStep::More(total)
    }
}

/// Returns the bytes that a reader gets from a reception; an error after some
/// bytes delivers those bytes.
pub fn read_count(reception: Result<usize, TransBytesError>) -> (count: usize)
    ensures
        count == match reception {
            Ok(count) => count,
            Err(error) => error.bytes_transferred,
        },
{
    match reception {
        Ok(count) => count,
        Err(error) => error.bytes_transferred,
    }
}

/// Returns the baud rate to program when terminal settings change: the new
/// one, if there is one and it differs from the old.
pub fn termios_changed(before: Option<u32>, after: Option<u32>) -> (rate: Option<u32>)
    ensures
        rate == if after is Some && before != after {
            after
        } else {
            None
        },
{
    match after {
        None => None,
        Some(rate) => match before {
            Some(old_rate) => if old_rate == rate {
                None
            } else {
                Some(rate)
            },
            None => Some(rate),
        },
    }
}

} // verus!
