//! Accounts of the runtime under test.
use vstd::prelude::*;

verus! {

/// Amount of the runtime's currency.
pub type Balance = u128;

/// Height of a block.
pub type BlockNumber = u32;

/// Identifier of an account.
#[derive(Debug, Clone, Copy, PartialEq, Eq)]
pub struct AccountId {
    pub bytes: [u8; 32],
}

impl AccountId {
    /// The account whose identifier repeats `index`.
    pub open spec fn repeating(index: u8) -> AccountId {
        AccountId { bytes: vstd::array::spec_array_fill_for_copy_type::<u8, 32>(index) }
    }

    /// The account that stands for `index`: its identifier repeats that byte.
    pub fn from_index(index: u8) -> (account: AccountId)
        ensures
            account == AccountId::repeating(index),
            account.bytes@ == Seq::new(32, |k: int| index),
    {
        AccountId { bytes: [index; 32] }
    }
}

/// Different indices stand for different accounts.
pub proof fn indices_name_distinct_accounts(a: u8, b: u8)
    requires
        a != b,
    ensures
        AccountId::repeating(a) != AccountId::repeating(b),
{
    assert(AccountId::repeating(a).bytes@[0] == a);
    assert(AccountId::repeating(b).bytes@[0] == b);
}

/// The lower-case hexadecimal digit of `n`.
pub open spec fn hex_digit(n: nat) -> char {
    if n < 10 {
        ('0' as nat + n) as char
    } else {
        ('a' as nat + n - 10) as char
    }
}

/// Two hexadecimal digits for each byte, the upper half first.
pub open spec fn hex_text(bytes: Seq<u8>) -> Seq<char> {
    Seq::new(
        2 * bytes.len(),
        |k: int|
            hex_digit(
                if k % 2 == 0 {
                    bytes[k / 2] as nat / 16
                } else {
                    bytes[k / 2] as nat % 16
                },
            ),
    )
}

/// Whether `text` shows the account `bytes`: its bytes in hexadecimal, and in brackets the first
/// eight characters of an address for it.
pub open spec fn shows_account(bytes: Seq<u8>, text: Seq<char>) -> bool {
    let n = 2 * bytes.len() as int;
    &&& text.len() == n + 14
    &&& text.take(n) == hex_text(bytes)
    &&& text.subrange(n, n + 2) == seq![' ', '(']
    &&& text.skip(n + 10) == seq!['.', '.', '.', ')']
}

/// `Debug` of `sp_core::crypto::AccountId32`: the 32 bytes in lower-case hexadecimal, a blank, and
/// in brackets eight characters and three dots. The eight characters start the account's SS58
/// address in the address format that the process has set, and so nothing is said of them.
#[verifier::external_body]
fn outside_account_text(bytes: &[u8; 32]) -> (text: String)
    ensures
        shows_account(bytes@, text@),
{
    format!("{:?}", sp_core::crypto::AccountId32::new(*bytes))
}

impl AccountId {
    /// The account as it is written into records. The part in brackets follows the address format
    /// of the process.
    pub fn to_text(&self) -> (text: String)
        ensures
            shows_account(self.bytes@, text@),
    {
        outside_account_text(&self.bytes)
    }
}

proof fn hex_digit_injective(a: nat, b: nat)
    requires
        a < 16,
        b < 16,
        hex_digit(a) == hex_digit(b),
    ensures
        a == b,
{
}

/// A text shows at most one account.
pub proof fn text_identifies_account(a: AccountId, b: AccountId, text: Seq<char>)
    requires
        shows_account(a.bytes@, text),
        shows_account(b.bytes@, text),
    ensures
        a == b,
{
    assert forall|i: int| 0 <= i < 32 implies a.bytes@[i] == b.bytes@[i] by {
        let ha = hex_text(a.bytes@);
        let hb = hex_text(b.bytes@);
        assert(ha == hb);
        assert(ha[2 * i] == hb[2 * i]);
        assert(ha[2 * i + 1] == hb[2 * i + 1]);
        let (x, y) = (a.bytes@[i] as nat, b.bytes@[i] as nat);
        assert((2 * i) / 2 == i && (2 * i + 1) / 2 == i);
        assert((2 * i) % 2 == 0 && (2 * i + 1) % 2 == 1);
        hex_digit_injective(x / 16, y / 16);
        hex_digit_injective(x % 16, y % 16);
    }
    assert(a.bytes =~= b.bytes);
}

} // verus!
