//! The general laws of the storage layer, stated over the same spec
//! vocabulary that the operation contracts use, and proved for all inputs.

use vstd::prelude::*;

use crate::medium::AreaView;
use crate::next_count;
use crate::paths::dec_digits;
use crate::paths::digit_char;
use crate::value::dec_value;
use crate::value::digit_value;
use crate::value::is_dec_digit;
use crate::value::u32_accepts;
use crate::value::ConfigValue;

verus! {

/// Idempotent initialization: initializing an already-initialized medium
/// leaves it exactly as it was, so any number of `initialize` calls produces
/// the on-disk state that one call produces. Together with `initialize`'s
/// contract (which promises success whenever `can_initialize` holds, and
/// `can_initialize` never changes), repeated initialization also never errors
/// after the first success.
pub proof fn lemma_initialize_idempotent(a: AreaView)
    ensures
        a.initialized().initialized() == a.initialized(),
{
}

/// Field round-trip: once a field is written, it is present, its raw content
/// is exactly the text written, and reading it back as a `String` accepts it
/// and yields that text and nothing else.
pub proof fn lemma_field_round_trip(
    files: Map<Seq<char>, Seq<char>>,
    path: Seq<char>,
    value: Seq<char>,
)
    ensures
        files.insert(path, value).dom().contains(path),
        files.insert(path, value)[path] == value,
        <String as ConfigValue>::accepts(value),
        forall|s: String| #[trigger] s.is_parsed_of(value) <==> s@ == value,
{
}

/// Flag truth table: after setting a flag its file is present, after
/// clearing it the file is gone, and setting a flag that is already set
/// changes nothing (so it cannot fail for being set already).
pub proof fn lemma_flag_truth_table(
    files: Map<Seq<char>, Seq<char>>,
    path: Seq<char>,
    mark: Seq<char>,
)
    ensures
        files.insert(path, mark).dom().contains(path),
        !files.remove(path).dom().contains(path),
        files.insert(path, mark).insert(path, mark) == files.insert(path, mark),
{
    assert(files.insert(path, mark).insert(path, mark) =~= files.insert(path, mark));
}

/// Decimal round-trip: the decimal rendering of a number consists of digits
/// only, is never empty, and reads back as exactly that number.
pub proof fn lemma_decimal_round_trip(n: nat)
    ensures
        dec_digits(n).len() > 0,
        forall|i: int| 0 <= i < dec_digits(n).len() ==> is_dec_digit(#[trigger] dec_digits(n)[i]),
        dec_value(dec_digits(n)) == n,
    decreases n,
{
    if n < 10 {
        assert(dec_digits(n).drop_last() =~= Seq::<char>::empty());
        assert(dec_digits(n).last() == digit_char(n));
        assert(digit_value(digit_char(n)) == n);
        assert(dec_value(Seq::<char>::empty()) == 0);
        assert(dec_value(dec_digits(n)) == 0 * 10 + digit_value(digit_char(n)));
    } else {
        lemma_decimal_round_trip(n / 10);
        assert(dec_digits(n).drop_last() =~= dec_digits(n / 10));
        assert(dec_digits(n).last() == digit_char(n % 10));
        assert(digit_value(digit_char(n % 10)) == n % 10);
        assert(dec_value(dec_digits(n)) == (n / 10) * 10 + (n % 10));
        assert(n == (n / 10) * 10 + n % 10) by {
            vstd::arithmetic::div_mod::lemma_fundamental_div_mod(n as int, 10);
        }
        assert forall|i: int| 0 <= i < dec_digits(n).len() implies is_dec_digit(
            #[trigger] dec_digits(n)[i],
        ) by {
            if i < dec_digits(n).len() - 1 {
                assert(dec_digits(n)[i] == dec_digits(n / 10)[i]);
            }
        }
    }
}

/// A number written as a field in decimal is accepted and read back as
/// itself when the field is read as a `u32`.
pub proof fn lemma_rendered_number_reads_back(n: u32)
    ensures
        u32_accepts(dec_digits(n as nat)),
        forall|v: u32| #[trigger] v.is_parsed_of(dec_digits(n as nat)) <==> v == n,
{
    lemma_decimal_round_trip(n as nat);
}

/// Commit-on-mutation: as long as the commit counter has room, one mutation
/// on a journaled medium raises it by exactly one — each successful mutating
/// call costs exactly one commit.
pub proof fn lemma_one_commit_per_mutation(c: u64)
    requires
        c < u64::MAX,
    ensures
        next_count(c) == c + 1,
{
}

} // verus!
