//! Laws of the aggregate steps, stated over whole input columns folded left to right.

use crate::agg;
use crate::strings;
use crate::agg::{ExprError, SumAccumulator};
use crate::decimal;
use crate::decimal::Decimal;
use crate::fixed;
use crate::fixed::{FixedDecimal, FixedView};
use vstd::prelude::*;

verus! {

/// `count` folded over a column, starting from no result.
pub open spec fn fold_count<T>(inputs: Seq<Option<T>>) -> Option<i64>
    decreases inputs.len(),
{
    if inputs.len() == 0 {
        None
    } else {
        agg::count_step(fold_count(inputs.drop_last()), inputs.last())
    }
}

/// The number of non-NULL entries of a column.
pub open spec fn non_null<T>(inputs: Seq<Option<T>>) -> nat
    decreases inputs.len(),
{
    if inputs.len() == 0 {
        0
    } else {
        non_null(inputs.drop_last()) + if inputs.last() is Some {
            1nat
        } else {
            0nat
        }
    }
}

/// A prefix of a column has no more non-NULL entries than the column.
proof fn lemma_non_null_prefix<T>(inputs: Seq<Option<T>>, k: int)
    requires
        0 <= k <= inputs.len(),
    ensures
        non_null(inputs.take(k)) <= non_null(inputs),
    decreases inputs.len() - k,
{
    if k < inputs.len() {
        lemma_non_null_prefix(inputs, k + 1);
        assert(inputs.take(k + 1).drop_last() =~= inputs.take(k));
    } else {
        assert(inputs.take(k) =~= inputs);
    }
}

/// Counting a non-empty column gives the number of its non-NULL entries (so a column of
/// NULLs counts 0, not NULL), as long as that number fits in an `i64`.
pub proof fn law_count_counts_non_null<T>(inputs: Seq<Option<T>>)
    requires
        0 < inputs.len(),
        non_null(inputs) <= i64::MAX,
    ensures
        fold_count(inputs) == Some(non_null(inputs) as i64),
        non_null(inputs) <= inputs.len(),
    decreases inputs.len(),
{
    let p = inputs.drop_last();
    if inputs.len() > 1 {
        law_count_counts_non_null(p);
    } else {
        assert(p.len() == 0);
        assert(fold_count(p) is None);
        assert(non_null(p) == 0);
    }
}

/// Under the same bound, no step of the count overflows: whenever a non-NULL entry comes,
/// the count so far is below `i64::MAX` (what `count` requires).
pub proof fn law_count_steps_fit<T>(inputs: Seq<Option<T>>, k: int)
    requires
        0 <= k < inputs.len(),
        inputs[k] is Some,
        non_null(inputs) <= i64::MAX,
    ensures
        fold_count(inputs.take(k)) matches Some(c) ==> c < i64::MAX,
{
    lemma_non_null_prefix(inputs, k + 1);
    let t = inputs.take(k + 1);
    assert(t.drop_last() =~= inputs.take(k));
    assert(t.last() == inputs[k]);
    assert(non_null(t) == non_null(inputs.take(k)) + 1);
    if k > 0 {
        law_count_counts_non_null(inputs.take(k));
    } else {
        assert(inputs.take(0).len() == 0);
    }
}

/// `max_str` folded over a column, starting from no result.
pub open spec fn fold_max_str<'a>(inputs: Seq<Option<&'a str>>) -> Option<&'a str>
    decreases inputs.len(),
{
    if inputs.len() == 0 {
        None
    } else {
        let r = fold_max_str(inputs.drop_last());
        let i = inputs.last();
        agg::extremum_step(
            r,
            i,
            (r, i) matches (Some(a), Some(b)) && strings::text_less(b@, a@),
        )
    }
}

/// `max_str` over a column is NULL exactly when every entry is; otherwise it is one of the
/// entries, and no entry sorts after it.
pub proof fn law_max_str_is_greatest<'a>(inputs: Seq<Option<&'a str>>)
    ensures
        fold_max_str(inputs) is None <==> (forall|i: int| 0 <= i < inputs.len() ==> inputs[i] is None),
        fold_max_str(inputs) matches Some(x) ==> {
            &&& exists|i: int| 0 <= i < inputs.len() && inputs[i] == Some(x)
            &&& forall|j: int|
                0 <= j < inputs.len() && #[trigger] inputs[j] is Some ==> !strings::text_less(
                    x@,
                    inputs[j]->0@,
                )
        },
    decreases inputs.len(),
{
    if inputs.len() > 0 {
        let p = inputs.drop_last();
        let n = inputs.len() - 1;
        assert(forall|j: int| 0 <= j < n ==> #[trigger] p[j] == inputs[j]);
        assert(inputs.last() == inputs[n]);
        law_max_str_is_greatest(p);
        let r = fold_max_str(p);
        match (r, inputs[n]) {
            (None, None) => {
                assert forall|i: int| 0 <= i < inputs.len() implies inputs[i] is None by {
                    if i < n {
                        assert(p[i] == inputs[i]);
                    }
                }
            },
            (None, Some(b)) => {
                strings::lemma_text_less_irreflexive(b@);
                assert forall|j: int|
                    0 <= j < inputs.len() && #[trigger] inputs[j] is Some implies !strings::text_less(
                    b@,
                    inputs[j]->0@,
                ) by {
                    if j < n {
                        assert(p[j] == inputs[j]);
                    }
                }
            },
            (Some(a), None) => {
                let i = choose|i: int| 0 <= i < p.len() && p[i] == Some(a);
                assert(inputs[i] == p[i]);
                assert forall|j: int|
                    0 <= j < inputs.len() && #[trigger] inputs[j] is Some implies !strings::text_less(
                    a@,
                    inputs[j]->0@,
                ) by {
                    if j < n {
                        assert(p[j] == inputs[j]);
                    }
                }
            },
            (Some(a), Some(b)) => {
                let i = choose|i: int| 0 <= i < p.len() && p[i] == Some(a);
                assert(inputs[i] == p[i]);
                if strings::text_less(b@, a@) {
                    strings::lemma_text_less_asymmetric(b@, a@);
                    assert forall|j: int|
                        0 <= j < inputs.len() && #[trigger] inputs[j] is Some implies !strings::text_less(
                        a@,
                        inputs[j]->0@,
                    ) by {
                        if j < n {
                            assert(p[j] == inputs[j]);
                        }
                    }
                } else {
                    strings::lemma_text_less_irreflexive(b@);
                    assert forall|j: int|
                        0 <= j < inputs.len() && #[trigger] inputs[j] is Some implies !strings::text_less(
                        b@,
                        inputs[j]->0@,
                    ) by {
                        if j < n {
                            assert(p[j] == inputs[j]);
                            let y = inputs[j]->0@;
                            assert(!strings::text_less(a@, y));
                            if strings::text_less(b@, y) {
                                if a@ == b@ {
                                } else {
                                    strings::lemma_text_less_total(a@, b@);
                                    strings::lemma_text_less_transitive(a@, b@, y);
                                }
                            }
                        }
                    }
                }
            },
        }
    }
}

/// `first` folded over a column.
pub open spec fn fold_first<T>(inputs: Seq<Option<T>>) -> Option<T>
    decreases inputs.len(),
{
    if inputs.len() == 0 {
        None
    } else {
        let prev = fold_first(inputs.drop_last());
        if prev is Some {
            prev
        } else {
            inputs.last()
        }
    }
}

/// `first` over a column is its first non-NULL entry, or NULL when it has none.
pub proof fn law_first_is_first_non_null<T>(inputs: Seq<Option<T>>)
    ensures
        fold_first(inputs) is None <==> (forall|i: int| 0 <= i < inputs.len() ==> inputs[i] is None),
        fold_first(inputs) is Some ==> exists|i: int|
            0 <= i < inputs.len() && inputs[i] == fold_first(inputs) && (forall|j: int| 0 <= j < i ==> inputs[j] is None),
    decreases inputs.len(),
{
    if inputs.len() > 0 {
        let p = inputs.drop_last();
        let n = inputs.len() - 1;
        assert(forall|j: int| 0 <= j < n ==> #[trigger] p[j] == inputs[j]);
        assert(inputs.last() == inputs[n]);
        law_first_is_first_non_null(p);
        if fold_first(p) is Some {
            let i = choose|i: int|
                0 <= i < p.len() && p[i] == fold_first(p) && (forall|j: int| 0 <= j < i ==> p[j] is None);
            assert(p[i] == inputs[i]);
            assert(forall|j: int| 0 <= j < i ==> p[j] == inputs[j]);
            assert(inputs[i] is Some);
        } else {
            if inputs.last() is Some {
                assert(inputs[n] == fold_first(inputs));
                assert forall|j: int| 0 <= j < n implies inputs[j] is None by {
                    assert(p[j] == inputs[j]);
                }
            } else {
                assert forall|i: int| 0 <= i < inputs.len() implies inputs[i] is None by {
                    if i < n {
                        assert(p[i] == inputs[i]);
                    }
                }
            }
        }
    }
}

/// `sum` folded over a column.
pub open spec fn fold_sum<R: SumAccumulator<T>, T>(inputs: Seq<Option<T>>) -> Result<Option<R>, ExprError>
    decreases inputs.len(),
{
    if inputs.len() == 0 {
        Ok(None)
    } else {
        match fold_sum::<R, T>(inputs.drop_last()) {
            Ok(r) => agg::sum_step(r, inputs.last()),
            Err(e) => Err(e),
        }
    }
}

/// The sum of a column of NULLs is NULL.
pub proof fn law_sum_of_nulls<R: SumAccumulator<T>, T>(inputs: Seq<Option<T>>)
    requires
        forall|i: int| 0 <= i < inputs.len() ==> inputs[i] is None,
    ensures
        fold_sum::<R, T>(inputs) == Ok::<Option<R>, ExprError>(None),
    decreases inputs.len(),
{
    if inputs.len() > 0 {
        law_sum_of_nulls::<R, T>(inputs.drop_last());
    }
}

/// The content of an integer as a decimal of scale 0.
pub open spec fn integer_content(t: int) -> FixedView {
    FixedView { negative: t < 0, magnitude: (if t < 0 { -t } else { t }) as nat, scale: 0 }
}

/// Widening a BIGINT into a decimal sum keeps its number: the decimal is finite, of scale 0,
/// negative exactly when the input is, and its signed mantissa is the input.
pub proof fn law_decimal_widen_keeps_number(t: i64)
    ensures
        <Decimal as SumAccumulator<i64>>::spec_widen(t) is Normalized,
        decimal::content(<Decimal as SumAccumulator<i64>>::spec_widen(t)).signed_mantissa() == t,
        decimal::content(<Decimal as SumAccumulator<i64>>::spec_widen(t)).scale == 0,
        decimal::content(<Decimal as SumAccumulator<i64>>::spec_widen(t)).negative == (t < 0),
{
    let v = decimal::integer_view(t as int);
    assert(v.magnitude < fixed::limb() * fixed::limb() * fixed::limb());
    FixedDecimal::lemma_from_view(v);
}

/// A decimal sum over BIGINT inputs: the first input starts the sum at its own number, and a
/// later input is added to a finite running sum as `rust_decimal` adds the number, overflow
/// being an error.
pub proof fn law_decimal_sum_of_bigints(a: Decimal, t: i64)
    ensures
        agg::sum_step::<Decimal, i64>(None, Some(t)) matches Ok(Some(d)) && d is Normalized
            && decimal::content(d).signed_mantissa() == t && decimal::content(d).scale == 0,
        a is Normalized ==> agg::sum_step::<Decimal, i64>(Some(a), Some(t)) == match fixed::decimal_sum(
            decimal::content(a),
            integer_content(t as int),
        ) {
            Some(x) => Ok::<Option<Decimal>, ExprError>(Some(decimal::finite(x))),
            None => Err(ExprError::NumericOutOfRange),
        },
{
    law_decimal_widen_keeps_number(t);
    let v = decimal::integer_view(t as int);
    assert(v == integer_content(t as int));
    FixedDecimal::lemma_from_view(v);
}

/// A BIGINT sum over SMALLINT inputs: the first input starts the sum at its value; a later one
/// is added, and a sum outside the `i64` range is an error.
pub proof fn law_bigint_sum_of_smallints(a: i64, t: i16)
    ensures
        agg::sum_step::<i64, i16>(None, Some(t)) matches Ok(Some(x)) && x == t,
        i64::MIN <= a + t <= i64::MAX ==> agg::sum_step::<i64, i16>(Some(a), Some(t)) == Ok::<
            Option<i64>,
            ExprError,
        >(Some((a + t) as i64)),
        !(i64::MIN <= a + t <= i64::MAX) ==> agg::sum_step::<i64, i16>(Some(a), Some(t)) == Err::<
            Option<i64>,
            ExprError,
        >(ExprError::NumericOutOfRange),
{
}

/// A BIGINT sum over INT inputs: the first input starts the sum at its value; a later one is
/// added, and a sum outside the `i64` range is an error.
pub proof fn law_bigint_sum_of_ints(a: i64, t: i32)
    ensures
        agg::sum_step::<i64, i32>(None, Some(t)) matches Ok(Some(x)) && x == t,
        i64::MIN <= a + t <= i64::MAX ==> agg::sum_step::<i64, i32>(Some(a), Some(t)) == Ok::<
            Option<i64>,
            ExprError,
        >(Some((a + t) as i64)),
        !(i64::MIN <= a + t <= i64::MAX) ==> agg::sum_step::<i64, i32>(Some(a), Some(t)) == Err::<
            Option<i64>,
            ExprError,
        >(ExprError::NumericOutOfRange),
{
}

/// A BIGINT sum over BIGINT inputs: the first input starts the sum at its value; a later one
/// is added, and a sum outside the `i64` range is an error.
pub proof fn law_bigint_sum_of_bigints(a: i64, t: i64)
    ensures
        agg::sum_step::<i64, i64>(None, Some(t)) matches Ok(Some(x)) && x == t,
        i64::MIN <= a + t <= i64::MAX ==> agg::sum_step::<i64, i64>(Some(a), Some(t)) == Ok::<
            Option<i64>,
            ExprError,
        >(Some((a + t) as i64)),
        !(i64::MIN <= a + t <= i64::MAX) ==> agg::sum_step::<i64, i64>(Some(a), Some(t)) == Err::<
            Option<i64>,
            ExprError,
        >(ExprError::NumericOutOfRange),
{
}

/// A decimal sum over decimal inputs starts at the first input itself.
pub proof fn law_decimal_sum_starts_at_input(t: Decimal)
    ensures
        agg::sum_step::<Decimal, Decimal>(None, Some(t)) == Ok::<Option<Decimal>, ExprError>(Some(t)),
{
}

} // verus!
