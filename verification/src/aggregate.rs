//! Reducing a supply of employees to the mean of their salaries.

use crate::employee::SALARY;
use crate::stream::EmployeeSource;
use vstd::prelude::*;

verus! {

/// The two numbers a mean is made of: how many salaries were seen, and what
/// they add up to. The mean is `sum` divided by `count`.
#[derive(Clone, Copy, Debug, PartialEq, Eq, Structural)]
pub struct SalaryTotals {
    pub count: u64,
    pub sum: u64,
}

impl SalaryTotals {
    /// At least one salary was seen, and the mean is exactly `mean`.
    pub open spec fn mean_is(self, mean: int) -> bool {
        self.count > 0 && self.sum == mean * self.count
    }

    /// The totals after one more salary has been seen.
    pub fn counting(self, salary: u64) -> (next: SalaryTotals)
        requires
            self.count < u64::MAX,
            self.sum + salary <= u64::MAX,
        ensures
            next.count == self.count + 1,
            next.sum == self.sum + salary,
    {
        SalaryTotals { count: self.count + 1, sum: self.sum + salary }
    }

    /// The mean rounded down, where there is one.
    pub open spec fn spec_whole_mean(self) -> Option<u64> {
        if self.count == 0 {
            None
        } else {
            Some((self.sum / self.count) as u64)
        }
    }

    /// The mean rounded down to a whole number, or `None` where no salary was
    /// seen and there is nothing to divide by.
    #[verifier::when_used_as_spec(spec_whole_mean)]
    pub fn whole_mean(self) -> (mean: Option<u64>)
        ensures
            mean == self.spec_whole_mean(),
            mean is None <==> self.count == 0,
    {
        if self.count == 0 {
            None
        } else {
            Some(self.sum / self.count)
        }
    }
}

/// What the salaries add up to.
pub open spec fn total_of(salaries: Seq<u64>) -> nat
    decreases salaries.len(),
{
    if salaries.len() == 0 {
        0
    } else {
        total_of(salaries.drop_last()) + salaries.last() as nat
    }
}

/// The total of two runs of salaries, one after the other, is the sum of
/// their totals.
pub proof fn lemma_total_of_concat(front: Seq<u64>, back: Seq<u64>)
    ensures
        total_of(front + back) == total_of(front) + total_of(back),
    decreases back.len(),
{
    if back.len() == 0 {
        assert(front + back =~= front);
    } else {
        assert((front + back).drop_last() =~= front + back.drop_last());
        lemma_total_of_concat(front, back.drop_last());
    }
}

/// The total lies between the count times the smallest and the count times
/// the largest salary, so the mean lies between the smallest and the largest.
pub proof fn lemma_total_of_bounds(salaries: Seq<u64>, smallest: nat, largest: nat)
    requires
        forall|i: int| 0 <= i < salaries.len() ==> smallest <= (#[trigger] salaries[i]) <= largest,
    ensures
        smallest * salaries.len() <= total_of(salaries) <= largest * salaries.len(),
    decreases salaries.len(),
{
    if salaries.len() > 0 {
        lemma_total_of_bounds(salaries.drop_last(), smallest, largest);
        let shorter: nat = salaries.drop_last().len();
        assert(smallest * (shorter + 1) == smallest * shorter + smallest) by (nonlinear_arith);
        assert(largest * (shorter + 1) == largest * shorter + largest) by (nonlinear_arith);
    }
}

/// Taking one salary out of a run lowers the total by that salary.
pub proof fn lemma_total_of_remove(salaries: Seq<u64>, at: int)
    requires
        0 <= at < salaries.len(),
    ensures
        total_of(salaries) == total_of(salaries.remove(at)) + salaries[at],
{
    let front: Seq<u64> = salaries.subrange(0, at);
    let back: Seq<u64> = salaries.subrange(at + 1, salaries.len() as int);
    assert(salaries =~= front.push(salaries[at]) + back);
    assert(salaries.remove(at) =~= front + back);
    assert(front.push(salaries[at]).drop_last() =~= front);
    lemma_total_of_concat(front.push(salaries[at]), back);
    lemma_total_of_concat(front, back);
}

/// The total does not depend on the order of the salaries: two runs that
/// hold the same salaries, each as often as the other, have the same total.
pub proof fn lemma_total_of_permutation(one: Seq<u64>, other: Seq<u64>)
    requires
        one.to_multiset() == other.to_multiset(),
    ensures
        total_of(one) == total_of(other),
    decreases one.len(),
{
    one.to_multiset_ensures();
    other.to_multiset_ensures();
    if one.len() > 0 {
        let last: u64 = one.last();
        assert(one[one.len() - 1] == last);
        assert(one.to_multiset().count(last) > 0);
        assert(other.contains(last));
        let at: int = choose|at: int| 0 <= at < other.len() && other[at] == last;
        assert(one.drop_last() =~= one.remove(one.len() - 1));
        assert(one.remove(one.len() - 1).to_multiset() == one.to_multiset().remove(last));
        assert(other.remove(at).to_multiset() == other.to_multiset().remove(last));
        lemma_total_of_permutation(one.drop_last(), other.remove(at));
        lemma_total_of_remove(other, at);
    }
}

/// Totals in which every salary seen was `SALARY` have the mean `SALARY`
/// exactly, however many salaries there were and whatever source the
/// employees were drawn from.
pub proof fn lemma_constant_salary_mean(totals: SalaryTotals)
    requires
        totals.count >= 1,
        totals.sum == SALARY * totals.count,
    ensures
        totals.mean_is(SALARY as int),
        totals.spec_whole_mean() == Some(SALARY),
{
    assert((SALARY * totals.count) / (totals.count as int) == SALARY) by (nonlinear_arith)
        requires
            totals.count >= 1,
    ;
}

/// Totals of no salaries have no mean.
pub proof fn lemma_empty_totals_have_no_mean(totals: SalaryTotals)
    requires
        totals.count == 0,
    ensures
        totals.spec_whole_mean() is None,
        forall|mean: int| !totals.mean_is(mean),
{
}

/// Walks the supply to its end, counting the employees and adding up their
/// salaries in one pass from first to last. No employee outlives the step
/// that counted it.
pub fn compute_average_income_of_all_employees<R, S: EmployeeSource<R>>(
    employees: S,
    rng: &mut R,
) -> (totals: SalaryTotals)
    requires
        employees.ready(),
        employees.salaries().len() <= u64::MAX,
        total_of(employees.salaries()) <= u64::MAX,
    ensures
        totals.count == employees.salaries().len(),
        totals.sum == total_of(employees.salaries()),
        exists|drained: S|
            drained.salaries().len() == 0 && #[trigger] drained.follows(
                final(rng),
                &employees,
                old(rng),
            ),
{
    let ghost start: S = employees;
    let ghost start_rng: R = *rng;
    let ghost all: Seq<u64> = employees.salaries();
    let mut employees = employees;
    let mut totals = SalaryTotals { count: 0, sum: 0 };
    proof {
        employees.lemma_follows_itself(&*rng);
        assert(all.subrange(0, all.len() as int) =~= all);
    }
    loop
        invariant
            employees.ready(),
            all.len() <= u64::MAX,
            total_of(all) <= u64::MAX,
            totals.count <= all.len(),
            employees.salaries() == all.subrange(totals.count as int, all.len() as int),
            totals.sum == total_of(all.subrange(0, totals.count as int)),
            employees.follows(&*rng, &start, &start_rng),
        ensures
            employees.salaries().len() == 0,
        decreases employees.salaries().len(),
    {
        let ghost before: S = employees;
        let ghost before_rng: R = *rng;
        let next = employees.next_employee(rng);
        proof {
            employees.lemma_follows_chain(&*rng, &before, &before_rng, &start, &start_rng);
        }
        match next {
            Some(employee) => {
                proof {
                    let seen: Seq<u64> = all.subrange(0, totals.count as int);
                    let rest: Seq<u64> = all.subrange(totals.count + 1, all.len() as int);
                    assert(all.subrange(0, totals.count + 1) =~= seen.push(employee.salary));
                    assert(seen.push(employee.salary).drop_last() =~= seen);
                    assert(employees.salaries() =~= rest);
                    assert(all =~= seen.push(employee.salary) + rest);
                    lemma_total_of_concat(seen.push(employee.salary), rest);
                }
                totals = totals.counting(employee.salary);
            },
            None => {
                break ;
            },
        }
    }
    proof {
        assert(all.subrange(0, all.len() as int) =~= all);
    }
    totals
}

} // verus!
