//! What the display of a transaction shows, and how a balance reads.

use vstd::prelude::*;
use vstd::string::StringExecFns;

verus! {

/// The kind of an input of a transaction.
#[derive(Clone, Copy, Debug, PartialEq, Eq, Structural)]
pub enum InputType {
    Account,
    Utxo,
}

/// What is left of the inputs once the outputs and the fee are paid.
#[derive(Clone, Copy, Debug, PartialEq, Eq, Structural)]
pub enum Balance {
    Positive(u64),
    Negative(u64),
    Zero,
}

/// The options of the display of a transaction.
#[derive(Clone, Debug, PartialEq, Eq)]
pub struct Info {
    /// The format of the summary, and of each input and output shown.
    pub format: String,
    /// Show only the inputs of kind UTxO.
    pub only_utxos: bool,
    /// Show only the inputs of kind account.
    pub only_accounts: bool,
    /// Show only the outputs.
    pub only_outputs: bool,
    /// The format kept for inputs of kind UTxO.
    pub format_utxo_input: String,
    /// The format kept for inputs of kind account.
    pub format_account_input: String,
    /// The format kept for outputs.
    pub format_output: String,
}

/// The decimal digit of a number below ten.
pub open spec fn decimal_digit(d: nat) -> char {
    seq!['0', '1', '2', '3', '4', '5', '6', '7', '8', '9'][d as int]
}

/// `n` in decimal, without leading zeros; zero is `0`.
pub open spec fn decimal(n: nat) -> Seq<char>
    decreases n,
{
    if n < 10 {
        seq![decimal_digit(n)]
    } else {
        decimal(n / 10).push(decimal_digit(n % 10))
    }
}

/// How a balance reads: a sign and the amount in decimal, or `0`.
pub open spec fn balance_text(balance: Balance) -> Seq<char> {
    match balance {
        Balance::Negative(value) => seq!['-'] + decimal(value as nat),
        Balance::Positive(value) => seq!['+'] + decimal(value as nat),
        Balance::Zero => seq!['0'],
    }
}

/// `u64`'s `to_string`: the number in decimal, without sign and without
/// leading zeros.
#[verifier::external_body]
fn decimal_string(value: u64) -> (r: String)
    ensures
        r@ == decimal(value as nat),
{
    value.to_string()
}

impl Balance {
    /// The balance as it is displayed.
    pub fn display(&self) -> (r: String)
        ensures
            r@ == balance_text(*self),
    {
        proof {
            reveal_strlit("-");
            reveal_strlit("+");
            reveal_strlit("0");
        }
        match self {
            Balance::Negative(value) => {
                let digits = decimal_string(*value);
                let r = String::from_str("-").concat(digits.as_str());
                assert(r@ =~= seq!['-'] + decimal(*value as nat));
                r
            },
            Balance::Positive(value) => {
                let digits = decimal_string(*value);
                let r = String::from_str("+").concat(digits.as_str());
                assert(r@ =~= seq!['+'] + decimal(*value as nat));
                r
            },
            Balance::Zero => {
                let r = String::from_str("0");
                assert(r@ =~= seq!['0']);
                r
            },
        }
    }
}

impl Info {
    /// Whether an input of this kind is shown: none is when only outputs
    /// are asked for, and none of the kind that the options leave out.
    pub open spec fn input_shown(self, kind: InputType) -> bool {
        match kind {
            InputType::Account => !(self.only_outputs || self.only_utxos),
            InputType::Utxo => !(self.only_outputs || self.only_accounts),
        }
    }

    /// Whether the outputs are shown: unless both kinds of input are asked
    /// for alone.
    pub open spec fn outputs_shown(self) -> bool {
        !self.only_accounts || !self.only_utxos
    }

    /// Decides whether an input of this kind is shown.
    pub fn shows_input(&self, kind: InputType) -> (r: bool)
        ensures
            r == self.input_shown(kind),
    {
        match kind {
            InputType::Account => !(self.only_outputs || self.only_utxos),
            InputType::Utxo => !(self.only_outputs || self.only_accounts),
        }
    }

    /// Decides whether the outputs are shown.
    pub fn shows_outputs(&self) -> (r: bool)
        ensures
            r == self.outputs_shown(),
    {
        !self.only_accounts || !self.only_utxos
    }

    /// The inputs that are shown, in their order: `kinds` gives the kind of
    /// each input, and the result the positions of those to show.
    pub fn inputs_to_display(&self, kinds: &Vec<InputType>) -> (r: Vec<usize>)
        ensures
            forall|x: int| 0 <= x < r.len() ==> r[x] < kinds.len() && self.input_shown(kinds[r[x] as int]),
            forall|x: int, y: int| 0 <= x < y < r.len() ==> r[x] < r[y],
            forall|i: int|
                0 <= i < kinds.len() && self.input_shown(kinds[i]) ==> r@.contains(i as usize),
    {
        let mut shown: Vec<usize> = Vec::new();
        let mut i: usize = 0;
        while i < kinds.len()
            invariant
                i <= kinds.len(),
                forall|x: int| 0 <= x < shown.len() ==> shown[x] < i && self.input_shown(kinds[shown[x] as int]),
                forall|x: int, y: int| 0 <= x < y < shown.len() ==> shown[x] < shown[y],
                forall|j: int|
                    0 <= j < i && self.input_shown(kinds[j]) ==> shown@.contains(j as usize),
            decreases kinds.len() - i,
        {
            if self.shows_input(kinds[i]) {
                let ghost before = shown@;
                shown.push(i);
                assert(shown@[before.len() as int] == i);
                assert forall|j: int|
                    0 <= j < i + 1 && self.input_shown(kinds[j]) implies shown@.contains(
                    j as usize,
                ) by {
                    if j < i {
                        let x = choose|x: int| 0 <= x < before.len() && before[x] == j as usize;
                        assert(shown@[x] == j as usize);
                    }
                }
            }
            i += 1;
        }
        shown
    }
}

} // verus!
