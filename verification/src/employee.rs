//! Synthetic employee records and the functions that fill them from a random
//! source.

use crate::char_pool::{alphabet, is_alphabet_symbol, lemma_alphabet_symbols};
use crate::source::{advanced_by, fresh_draws, lemma_advanced_by_chain, Draw, RandomSource};
use vstd::prelude::*;

verus! {

/// The salary of every generated employee.
pub const SALARY: u64 = 1000;

/// The number of characters in every generated text field.
pub const FIELD_LENGTH: usize = 80;

/// The number of draws one employee takes from its source: one for each
/// character of its six text fields.
pub const DRAWS_PER_EMPLOYEE: usize = 480;

/// `std::string::String::push` appends the character to the end of the string.
pub assume_specification[ String::push ](text: &mut String, c: char)
    ensures
        final(text)@ == old(text)@.push(c),
;

/// Where an employee lives: four text fields.
#[derive(Debug)]
pub struct Address {
    pub street: String,
    pub postal_code: String,
    pub city: String,
    pub country: String,
}

/// One synthetic employee: two names, an address and a salary.
#[derive(Debug)]
pub struct Employee {
    pub first_name: String,
    pub last_name: String,
    pub address: Address,
    pub salary: u64,
}

/// What an `Address` holds, as plain sequences of characters.
pub struct AddressView {
    pub street: Seq<char>,
    pub postal_code: Seq<char>,
    pub city: Seq<char>,
    pub country: Seq<char>,
}

/// What an `Employee` holds, as plain values.
pub struct EmployeeView {
    pub first_name: Seq<char>,
    pub last_name: Seq<char>,
    pub address: AddressView,
    pub salary: u64,
}

impl View for Address {
    type V = AddressView;

    open spec fn view(&self) -> AddressView {
        AddressView {
            street: self.street@,
            postal_code: self.postal_code@,
            city: self.city@,
            country: self.country@,
        }
    }
}

impl View for Employee {
    type V = EmployeeView;

    open spec fn view(&self) -> EmployeeView {
        EmployeeView {
            first_name: self.first_name@,
            last_name: self.last_name@,
            address: self.address@,
            salary: self.salary,
        }
    }
}

/// The text that a run of draws spells out: one character of the pool per draw.
pub open spec fn text_of_draws(char_pool: Seq<char>, draws: Seq<Draw>) -> Seq<char> {
    Seq::new(draws.len(), |i: int| char_pool[draws[i].index as int])
}

/// A text field as the generator makes them: `FIELD_LENGTH` characters, each
/// one of the pool's.
pub open spec fn is_field_text(text: Seq<char>, char_pool: Seq<char>) -> bool {
    &&& text.len() == FIELD_LENGTH
    &&& forall|i: int| 0 <= i < text.len() ==> char_pool.contains(#[trigger] text[i])
}

/// The draws that spell out the text field at position `field` of a record.
pub open spec fn field_draws(draws: Seq<Draw>, field: int) -> Seq<Draw> {
    draws.subrange(field * FIELD_LENGTH, (field + 1) * FIELD_LENGTH)
}

/// The employee that `DRAWS_PER_EMPLOYEE` draws spell out. The fields take
/// their draws in the order first name, last name, street, postal code, city,
/// country.
pub open spec fn employee_of_draws(char_pool: Seq<char>, draws: Seq<Draw>) -> EmployeeView
    recommends
        draws.len() == DRAWS_PER_EMPLOYEE,
{
    EmployeeView {
        first_name: text_of_draws(char_pool, field_draws(draws, 0)),
        last_name: text_of_draws(char_pool, field_draws(draws, 1)),
        address: AddressView {
            street: text_of_draws(char_pool, field_draws(draws, 2)),
            postal_code: text_of_draws(char_pool, field_draws(draws, 3)),
            city: text_of_draws(char_pool, field_draws(draws, 4)),
            country: text_of_draws(char_pool, field_draws(draws, 5)),
        },
        salary: SALARY,
    }
}

impl EmployeeView {
    /// Every text field is a field text over `char_pool`, and the salary is
    /// `SALARY`.
    pub open spec fn is_generated_from(self, char_pool: Seq<char>) -> bool {
        &&& is_field_text(self.first_name, char_pool)
        &&& is_field_text(self.last_name, char_pool)
        &&& is_field_text(self.address.street, char_pool)
        &&& is_field_text(self.address.postal_code, char_pool)
        &&& is_field_text(self.address.city, char_pool)
        &&& is_field_text(self.address.country, char_pool)
        &&& self.salary == SALARY
    }
}

/// Draws below the pool's length spell out a text of as many characters as
/// there are draws, each of them one of the pool's.
pub proof fn lemma_text_of_draws_in_pool(char_pool: Seq<char>, draws: Seq<Draw>)
    requires
        forall|i: int| 0 <= i < draws.len() ==> (#[trigger] draws[i]).index < char_pool.len(),
    ensures
        text_of_draws(char_pool, draws).len() == draws.len(),
        forall|i: int|
            0 <= i < draws.len() ==> char_pool.contains(
                #[trigger] text_of_draws(char_pool, draws)[i],
            ),
{
    assert forall|i: int| 0 <= i < draws.len() implies char_pool.contains(
        #[trigger] text_of_draws(char_pool, draws)[i],
    ) by {
        assert(char_pool[draws[i].index as int] == text_of_draws(char_pool, draws)[i]);
    }
}

/// A text field over the alphabet has exactly `FIELD_LENGTH` characters, and
/// every one of them is an ASCII letter or digit.
pub proof fn lemma_field_text_over_alphabet(text: Seq<char>)
    requires
        is_field_text(text, alphabet()),
    ensures
        text.len() == FIELD_LENGTH,
        forall|i: int| 0 <= i < text.len() ==> is_alphabet_symbol(#[trigger] text[i]),
{
    lemma_alphabet_symbols();
}

/// Whatever the source drew, the employee spelled out by `DRAWS_PER_EMPLOYEE`
/// draws below the pool's length has six fields of `FIELD_LENGTH` characters
/// of the pool and the salary `SALARY`.
pub proof fn lemma_employee_of_draws_is_generated(char_pool: Seq<char>, draws: Seq<Draw>)
    requires
        draws.len() == DRAWS_PER_EMPLOYEE,
        forall|i: int| 0 <= i < draws.len() ==> (#[trigger] draws[i]).index < char_pool.len(),
    ensures
        employee_of_draws(char_pool, draws).is_generated_from(char_pool),
{
    lemma_text_of_draws_in_pool(char_pool, field_draws(draws, 0));
    lemma_text_of_draws_in_pool(char_pool, field_draws(draws, 1));
    lemma_text_of_draws_in_pool(char_pool, field_draws(draws, 2));
    lemma_text_of_draws_in_pool(char_pool, field_draws(draws, 3));
    lemma_text_of_draws_in_pool(char_pool, field_draws(draws, 4));
    lemma_text_of_draws_in_pool(char_pool, field_draws(draws, 5));
}

/// Builds one text field: `FIELD_LENGTH` characters, each picked from
/// `char_pool` at an index sampled from `rng`.
pub fn create_random_string_of_80_chars<R: RandomSource>(rng: &mut R, char_pool: &[char]) -> (text:
    String)
    requires
        char_pool@.len() > 0,
    ensures
        advanced_by(old(rng).draws(), final(rng).draws(), FIELD_LENGTH as nat, char_pool@.len()),
        text@ == text_of_draws(char_pool@, fresh_draws(old(rng).draws(), final(rng).draws())),
        is_field_text(text@, char_pool@),
{
    let ghost before: Seq<Draw> = rng.draws();
    let mut text = String::new();
    let mut made: usize = 0;
    proof {
        assert(before.subrange(0, before.len() as int) =~= before);
        assert(text@ =~= text_of_draws(char_pool@, fresh_draws(before, before)));
    }
    while made < FIELD_LENGTH
        invariant
            made <= FIELD_LENGTH,
            char_pool@.len() > 0,
            advanced_by(before, rng.draws(), made as nat, char_pool@.len()),
            text@ == text_of_draws(char_pool@, fresh_draws(before, rng.draws())),
        decreases FIELD_LENGTH - made,
    {
        let ghost earlier: Seq<Draw> = rng.draws();
        let index = rng.sample_index(char_pool.len());
        text.push(char_pool[index]);
        made = made + 1;
        proof {
            assert(rng.draws().subrange(0, before.len() as int) =~= earlier.subrange(
                0,
                before.len() as int,
            ));
            assert(fresh_draws(before, rng.draws()) =~= fresh_draws(before, earlier).push(
                (Draw { bound: char_pool@.len() as usize, index }),
            ));
        }
    }
    proof {
        lemma_text_of_draws_in_pool(char_pool@, fresh_draws(before, rng.draws()));
    }
    text
}

/// Builds one employee: six text fields drawn from `rng` in the order first
/// name, last name, street, postal code, city, country, and the salary
/// `SALARY`.
pub fn create_random_employee<R: RandomSource>(rng: &mut R, char_pool: &[char]) -> (employee:
    Employee)
    requires
        char_pool@.len() > 0,
    ensures
        advanced_by(
            old(rng).draws(),
            final(rng).draws(),
            DRAWS_PER_EMPLOYEE as nat,
            char_pool@.len(),
        ),
        employee@ == employee_of_draws(
            char_pool@,
            fresh_draws(old(rng).draws(), final(rng).draws()),
        ),
        employee@.is_generated_from(char_pool@),
{
    let ghost bound: nat = char_pool@.len();
    let ghost d0: Seq<Draw> = rng.draws();
    let first_name = create_random_string_of_80_chars(rng, char_pool);
    let ghost d1: Seq<Draw> = rng.draws();
    let last_name = create_random_string_of_80_chars(rng, char_pool);
    let ghost d2: Seq<Draw> = rng.draws();
    let street = create_random_string_of_80_chars(rng, char_pool);
    let ghost d3: Seq<Draw> = rng.draws();
    let postal_code = create_random_string_of_80_chars(rng, char_pool);
    let ghost d4: Seq<Draw> = rng.draws();
    let city = create_random_string_of_80_chars(rng, char_pool);
    let ghost d5: Seq<Draw> = rng.draws();
    let country = create_random_string_of_80_chars(rng, char_pool);
    let ghost d6: Seq<Draw> = rng.draws();
    proof {
        let all: Seq<Draw> = fresh_draws(d0, d6);
        lemma_advanced_by_chain(d0, d1, d2, 80, 80, bound);
        lemma_advanced_by_chain(d0, d2, d3, 160, 80, bound);
        lemma_advanced_by_chain(d0, d3, d4, 240, 80, bound);
        lemma_advanced_by_chain(d0, d4, d5, 320, 80, bound);
        lemma_advanced_by_chain(d0, d5, d6, 400, 80, bound);
        assert(field_draws(all, 0) =~= fresh_draws(d0, d1));
        assert(field_draws(all, 1) =~= fresh_draws(d1, d2));
        assert(field_draws(all, 2) =~= fresh_draws(d2, d3));
        assert(field_draws(all, 3) =~= fresh_draws(d3, d4));
        assert(field_draws(all, 4) =~= fresh_draws(d4, d5));
        assert(field_draws(all, 5) =~= fresh_draws(d5, d6));
        assert forall|i: int| 0 <= i < all.len() implies (#[trigger] all[i]).index < bound by {
            assert(all[i] == d6[d0.len() + i]);
        }
        lemma_employee_of_draws_is_generated(char_pool@, all);
    }
    Employee {
        first_name,
        last_name,
        address: Address { street, postal_code, city, country },
        salary: SALARY,
    }
}

} // verus!
