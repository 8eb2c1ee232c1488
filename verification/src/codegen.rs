//! The identifier generator: short random codes for links that are created
//! without one.

use vstd::prelude::*;

verus! {

/// The length of a generated code.
pub const DEFAULT_CODE_LENGTH: usize = 5;

/// The symbols that generated codes are made of: digits, ASCII letters,
/// `_` and `-`.
pub open spec fn is_code_symbol(c: char) -> bool {
    ||| '0' <= c <= '9'
    ||| 'a' <= c <= 'z'
    ||| 'A' <= c <= 'Z'
    ||| c == '_'
    ||| c == '-'
}

/// The shape of a generated code: `DEFAULT_CODE_LENGTH` code symbols.
pub open spec fn is_generated_code(code: Seq<char>) -> bool {
    &&& code.len() == DEFAULT_CODE_LENGTH
    &&& forall|i: int| 0 <= i < code.len() ==> is_code_symbol(#[trigger] code[i])
}

/// Draws a random identifier of `size` symbols with `nanoid::format`, from
/// the generator `nanoid::rngs::default` and the alphabet
/// `nanoid::alphabet::SAFE`.
///
/// Claimed of it: the identifier has `size` characters, each of them one of
/// the 64 symbols of that alphabet. Which ones is left open. A size of
/// zero is kept out, on which the function would not return. The generator
/// stops the program if the system gives it no entropy.
#[verifier::external_body]
fn random_identifier(size: usize) -> (id: String)
    requires
        0 < size <= u16::MAX,
    ensures
        id@.len() == size,
        forall|i: int| 0 <= i < id@.len() ==> is_code_symbol(#[trigger] id@[i]),
{
    nanoid::format(nanoid::rngs::default, &nanoid::alphabet::SAFE, size)
}

/// Generates a short code. Its uniqueness is not promised: it is the store
/// that refuses a code that is taken.
pub fn generate() -> (code: String)
    ensures
        is_generated_code(code@),
{
    random_identifier(DEFAULT_CODE_LENGTH)
}

} // verus!
