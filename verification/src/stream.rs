//! Finite supplies of employees, handed out one at a time.

use crate::employee::{
    create_random_employee, employee_of_draws, Employee, DRAWS_PER_EMPLOYEE, SALARY,
};
use crate::source::{advanced_by, fresh_draws, lemma_advanced_by_chain, RandomSource};
use vstd::prelude::*;

verus! {

/// A finite supply of employees that hands them out one at a time and can be
/// walked once: what it has handed out is gone.
///
/// `R` is what the supply draws on while it makes an employee, such as a
/// random source. It is lent anew for every employee, so one `R` can serve
/// one supply after another and continues where the last one stopped.
pub trait EmployeeSource<R>: Sized {
    /// The salaries of the employees still to come, in the order they will
    /// come.
    spec fn salaries(&self) -> Seq<u64>;

    /// The supply can be asked for its next employee.
    spec fn ready(&self) -> bool;

    /// This supply, with `rng` as it now stands, is what `earlier` and
    /// `earlier_rng` have become after some employees were handed out.
    spec fn follows(&self, rng: &R, earlier: &Self, earlier_rng: &R) -> bool;

    /// A supply follows itself: handing out nothing changes nothing.
    proof fn lemma_follows_itself(&self, rng: &R)
        ensures
            self.follows(rng, self, rng),
    ;

    /// What follows a supply that follows another follows that other.
    proof fn lemma_follows_chain(
        &self,
        rng: &R,
        middle: &Self,
        middle_rng: &R,
        earlier: &Self,
        earlier_rng: &R,
    )
        requires
            middle.follows(middle_rng, earlier, earlier_rng),
            self.follows(rng, middle, middle_rng),
        ensures
            self.follows(rng, earlier, earlier_rng),
    ;

    /// Hands out the next employee, or `None` once none is left.
    fn next_employee(&mut self, rng: &mut R) -> (next: Option<Employee>)
        requires
            old(self).ready(),
        ensures
            final(self).ready(),
            final(self).follows(final(rng), old(self), old(rng)),
            old(self).salaries().len() == 0 ==> {
                &&& next is None
                &&& final(self).salaries() == old(self).salaries()
            },
            old(self).salaries().len() > 0 ==> {
                &&& next is Some
                &&& next.unwrap().salary == old(self).salaries().first()
                &&& final(self).salaries() == old(self).salaries().drop_first()
            },
    ;
}

/// A stream of employees that are yet to be made: each is drawn from a random
/// source when it is asked for, and none is stored.
pub struct EmployeeStream<'a> {
    /// The characters that text fields are made of.
    pub char_pool: &'a [char],
    /// How many employees the stream will still yield.
    pub remaining: usize,
}

/// Starts a stream of `number_of_all_employees` employees over `char_pool`.
///
/// Nothing is drawn until the first employee is asked for.
pub fn lookup_all_employees<'a>(number_of_all_employees: usize, char_pool: &'a [char]) -> (employees:
    EmployeeStream<'a>)
    ensures
        employees.remaining == number_of_all_employees,
        employees.char_pool@ == char_pool@,
        employees.spec_salaries().len() == number_of_all_employees,
{
    EmployeeStream { char_pool, remaining: number_of_all_employees }
}

impl<'a> EmployeeStream<'a> {
    /// The salaries of the employees still to come: `SALARY`, once for each.
    pub open spec fn spec_salaries(&self) -> Seq<u64> {
        Seq::new(self.remaining as nat, |i: int| SALARY)
    }
}

/// A stream hands out exactly as many employees as it was started for: when
/// `handed_out` of them have left a stream started for `requested`, there is
/// one more to come if and only if `handed_out` is less than `requested`, and
/// what is still to come is what was to come at the start without the first
/// `handed_out`.
pub proof fn lemma_stream_hands_out_exactly(
    started: EmployeeStream<'_>,
    now: EmployeeStream<'_>,
    requested: nat,
    handed_out: nat,
)
    requires
        started.remaining == requested,
        now.remaining + handed_out == requested,
    ensures
        started.spec_salaries().len() == requested,
        now.spec_salaries().len() > 0 <==> handed_out < requested,
        now.spec_salaries() == started.spec_salaries().skip(handed_out as int),
{
    assert(now.spec_salaries() =~= started.spec_salaries().skip(handed_out as int));
}

impl<'a, R: RandomSource> EmployeeSource<R> for EmployeeStream<'a> {
    open spec fn salaries(&self) -> Seq<u64> {
        self.spec_salaries()
    }

    /// Employees can be made while the pool holds a character to draw.
    open spec fn ready(&self) -> bool {
        self.remaining > 0 ==> self.char_pool@.len() > 0
    }

    /// The pool is the same, and for every employee that was handed out in
    /// between the source made `DRAWS_PER_EMPLOYEE` draws below the pool's
    /// length.
    open spec fn follows(&self, rng: &R, earlier: &Self, earlier_rng: &R) -> bool {
        &&& self.char_pool@ == earlier.char_pool@
        &&& self.remaining <= earlier.remaining
        &&& advanced_by(
            earlier_rng.draws(),
            rng.draws(),
            ((earlier.remaining - self.remaining) * DRAWS_PER_EMPLOYEE) as nat,
            self.char_pool@.len(),
        )
    }

    proof fn lemma_follows_itself(&self, rng: &R) {
        assert(rng.draws().subrange(0, rng.draws().len() as int) =~= rng.draws());
    }

    proof fn lemma_follows_chain(
        &self,
        rng: &R,
        middle: &Self,
        middle_rng: &R,
        earlier: &Self,
        earlier_rng: &R,
    ) {
        lemma_advanced_by_chain(
            earlier_rng.draws(),
            middle_rng.draws(),
            rng.draws(),
            ((earlier.remaining - middle.remaining) * DRAWS_PER_EMPLOYEE) as nat,
            ((middle.remaining - self.remaining) * DRAWS_PER_EMPLOYEE) as nat,
            self.char_pool@.len(),
        );
    }

    /// Makes the next employee from `rng`, or yields `None`, and draws
    /// nothing, once the stream has yielded as many as it was started with.
    fn next_employee(&mut self, rng: &mut R) -> (next: Option<Employee>)
        ensures
            final(self).char_pool@ == old(self).char_pool@,
            old(self).remaining == 0 ==> {
                &&& final(self).remaining == 0
                &&& final(rng).draws() == old(rng).draws()
            },
            old(self).remaining > 0 ==> {
                &&& final(self).remaining == old(self).remaining - 1
                &&& next.unwrap()@ == employee_of_draws(
                    old(self).char_pool@,
                    fresh_draws(old(rng).draws(), final(rng).draws()),
                )
            },
    {
        if self.remaining == 0 {
            proof {
                assert(rng.draws().subrange(0, rng.draws().len() as int) =~= rng.draws());
            }
            None
        } else {
            self.remaining = self.remaining - 1;
            let employee = create_random_employee(rng, self.char_pool);
            proof {
                assert(self.spec_salaries() =~= old(self).spec_salaries().drop_first());
            }
            Some(employee)
        }
    }
}

/// The salaries of a run of employees, in the same order.
pub open spec fn salaries_of(employees: Seq<Employee>) -> Seq<u64> {
    Seq::new(employees.len(), |i: int| employees[i].salary)
}

/// Employees that are already at hand, handed out in the order they were
/// given in. Handing them out draws on nothing.
pub struct EmployeeList {
    /// The employees still to come, the next one last.
    rest: Vec<Employee>,
}

impl EmployeeList {
    /// The employees still to come, the next one first.
    pub closed spec fn upcoming(&self) -> Seq<Employee> {
        self.rest@.reverse()
    }

    /// Makes a list that will hand out `employees` from first to last.
    pub fn new(employees: Vec<Employee>) -> (list: Self)
        ensures
            list.upcoming() == employees@,
    {
        let ghost given: Seq<Employee> = employees@;
        let mut employees = employees;
        let mut rest: Vec<Employee> = Vec::new();
        loop
            invariant
                employees@ == given.subrange(0, employees@.len() as int),
                employees@.len() + rest@.len() == given.len(),
                rest@.reverse() == given.subrange(employees@.len() as int, given.len() as int),
            ensures
                employees@.len() == 0,
            decreases employees@.len(),
        {
            let ghost earlier: Seq<Employee> = rest@;
            match employees.pop() {
                Some(employee) => {
                    rest.push(employee);
                    proof {
                        assert(rest@.reverse() =~= seq![employee] + earlier.reverse());
                    }
                },
                None => {
                    break ;
                },
            }
        }
        EmployeeList { rest }
    }
}

impl<R> EmployeeSource<R> for EmployeeList {
    open spec fn salaries(&self) -> Seq<u64> {
        salaries_of(self.upcoming())
    }

    /// A list can always be asked.
    open spec fn ready(&self) -> bool {
        true
    }

    /// Nothing was drawn in between.
    open spec fn follows(&self, rng: &R, earlier: &Self, earlier_rng: &R) -> bool {
        rng == earlier_rng
    }

    proof fn lemma_follows_itself(&self, rng: &R) {
    }

    proof fn lemma_follows_chain(
        &self,
        rng: &R,
        middle: &Self,
        middle_rng: &R,
        earlier: &Self,
        earlier_rng: &R,
    ) {
    }

    /// Hands out the first of the employees still to come, and leaves `rng`
    /// as it is.
    fn next_employee(&mut self, rng: &mut R) -> (next: Option<Employee>)
        ensures
            *final(rng) == *old(rng),
            old(self).upcoming().len() == 0 ==> final(self).upcoming() == old(self).upcoming(),
            old(self).upcoming().len() > 0 ==> {
                &&& next == Some(old(self).upcoming().first())
                &&& final(self).upcoming() == old(self).upcoming().drop_first()
            },
    {
        let next = self.rest.pop();
        proof {
            if old(self).rest@.len() > 0 {
                assert(self.rest@.reverse() =~= old(self).rest@.reverse().drop_first());
                assert(salaries_of(self.upcoming()) =~= salaries_of(
                    old(self).upcoming(),
                ).drop_first());
            }
        }
        next
    }
}

} // verus!
