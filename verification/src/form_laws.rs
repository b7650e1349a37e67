//! Properties of the line field and of the setup wizard that span several
//! keys.

use vstd::prelude::*;

use crate::keys::KeyCode;
use crate::line_edit::{all_digits, digits_value, is_digit, parsed_u32, unsigned_digits, LineView};
use crate::setup::{PredefinedProvider, SetupStep, SetupView};
use crate::text::{decimal, digit_char};

verus! {

/// Typing a character and then pressing Backspace gives back the field as
/// it was.
pub proof fn law_backspace_erases_typed_char(v: LineView, c: char)
    requires
        v.wf(),
    ensures
        v.edited(KeyCode::Char(c)).edited(KeyCode::Backspace) == v,
{
    let w = v.edited(KeyCode::Char(c));
    assert(w.text.remove(w.cursor - 1) =~= v.text);
}

/// Moving left and then right from inside the field puts the cursor back.
pub proof fn law_left_then_right(v: LineView)
    requires
        v.wf(),
        v.cursor > 0,
    ensures
        v.edited(KeyCode::Left).edited(KeyCode::Right) == v,
{
}

proof fn lemma_digit_char(d: nat)
    requires
        d < 10,
    ensures
        is_digit(digit_char(d)),
        (digit_char(d) as u32) - ('0' as u32) == d,
{
}

proof fn lemma_decimal_digits(n: nat)
    ensures
        decimal(n).len() > 0,
        all_digits(decimal(n)),
        digits_value(decimal(n)) == n,
    decreases n,
{
    if n < 10 {
        lemma_digit_char(n);
        assert(decimal(n).drop_last() =~= Seq::<char>::empty());
        assert(digits_value(Seq::<char>::empty()) == 0);
        assert(decimal(n).last() == digit_char(n));
    } else {
        lemma_decimal_digits(n / 10);
        lemma_digit_char(n % 10);
        let s = decimal(n);
        assert(s.drop_last() =~= decimal(n / 10));
        assert(s.last() == digit_char(n % 10));
        assert((n / 10) * 10 + n % 10 == n) by (nonlinear_arith);
        assert forall|i: int| 0 <= i < s.len() implies is_digit(#[trigger] s[i]) by {
            if i < s.len() - 1 {
                assert(s[i] == decimal(n / 10)[i]);
            }
        }
    }
}

/// The decimal text of any `u32` parses back to it; in particular the
/// default context-window text gives the default window.
pub proof fn law_decimal_parses_back(n: u32)
    ensures
        parsed_u32(decimal(n as nat)) == Some(n),
{
    lemma_decimal_digits(n as nat);
    let s = decimal(n as nat);
    assert(is_digit(s[0]));
    assert(unsigned_digits(s) == s);
}

/// At the text steps that have a step before the next one, Enter on an
/// accepted field and then Esc come back to the same step with the same
/// text in the field.
pub proof fn law_setup_back_restores_entry(v: SetupView, providers: Seq<PredefinedProvider>)
    requires
        v.wf(providers),
        v.step == SetupStep::PredefinedInputApiKey || v.step == SetupStep::CustomInputProviderName
            || v.step == SetupStep::CustomInputBaseUrl || v.step == SetupStep::CustomInputApiKey
            || v.step == SetupStep::CustomInputModelName,
        (SetupView { error: Seq::empty(), ..v }).refusal() is None,
    ensures
        ({
            let w = v.after_key(KeyCode::Enter, providers).after_key(KeyCode::Esc, providers);
            &&& w.step == v.step
            &&& w.input.text == v.input.text
        }),
{
}

} // verus!
