use compute_average_income::aggregate::{compute_average_income_of_all_employees, SalaryTotals};
use compute_average_income::char_pool::char_pool;
use compute_average_income::employee::{Address, Employee};
use compute_average_income::fast_rand::FastSource;
use compute_average_income::small_random::{SmallSource, SourceError};
use compute_average_income::source::RandomSource;
use compute_average_income::stream::{lookup_all_employees, EmployeeList, EmployeeSource};
use compute_average_income::trial::{run_benchmark, run_trial, Backend, WORKLOAD_SIZES, WORKLOAD_TOTAL};
use rand::rngs::SmallRng;
use rand::{Rng, SeedableRng};

fn small() -> SmallSource {
    SmallSource::from_seeding(SmallRng::from_rng(rand::thread_rng())).unwrap()
}

fn mean(totals: &SalaryTotals) -> f64 {
    (totals.sum as f64) / (totals.count as f64)
}

fn paid(salary: u64) -> Employee {
    Employee {
        first_name: String::new(),
        last_name: String::new(),
        address: Address {
            street: String::new(),
            postal_code: String::new(),
            city: String::new(),
            country: String::new(),
        },
        salary,
    }
}

fn totals_of(salaries: &[u64]) -> SalaryTotals {
    let list = EmployeeList::new(salaries.iter().map(|&salary| paid(salary)).collect());
    compute_average_income_of_all_employees(list, &mut FastSource::new())
}

fn count_employees<R: RandomSource>(source: &mut R, requested: usize) -> usize {
    let pool = char_pool();
    let mut employees = lookup_all_employees(requested, &pool);
    let mut seen = 0;
    while let Some(employee) = employees.next_employee(source) {
        assert_eq!(employee.salary, 1000);
        seen += 1;
    }
    assert!(employees.next_employee(source).is_none());
    assert_eq!(employees.remaining, 0);
    seen
}

#[test]
fn stream_of_zero_yields_nothing() {
    assert_eq!(count_employees(&mut FastSource::new(), 0), 0);
    assert_eq!(count_employees(&mut small(), 0), 0);
}

#[test]
fn stream_of_one_yields_one() {
    assert_eq!(count_employees(&mut FastSource::new(), 1), 1);
    assert_eq!(count_employees(&mut small(), 1), 1);
}

#[test]
fn stream_of_a_few_yields_as_many() {
    assert_eq!(count_employees(&mut FastSource::new(), 7), 7);
    assert_eq!(count_employees(&mut small(), 250), 250);
}

#[test]
fn stream_of_a_million_yields_a_million() {
    let pool = char_pool();
    let mut source = FastSource::new();
    let totals =
        compute_average_income_of_all_employees(lookup_all_employees(1_000_000, &pool), &mut source);
    assert_eq!(totals.count, 1_000_000);
    assert_eq!(totals.sum, 1_000_000_000);
}

#[test]
fn stream_counts_down_as_it_yields() {
    let pool = char_pool();
    let mut source = FastSource::new();
    let mut employees = lookup_all_employees(3, &pool);
    assert_eq!(employees.remaining, 3);
    assert!(employees.next_employee(&mut source).is_some());
    assert_eq!(employees.remaining, 2);
    assert!(employees.next_employee(&mut source).is_some());
    assert!(employees.next_employee(&mut source).is_some());
    assert_eq!(employees.remaining, 0);
    assert!(employees.next_employee(&mut source).is_none());
    assert!(employees.next_employee(&mut source).is_none());
}

#[test]
fn stream_of_zero_draws_nothing() {
    let pool = char_pool();
    let mut source = SmallSource::from_rng(SmallRng::seed_from_u64(9));
    let mut twin = SmallRng::seed_from_u64(9);
    let totals = compute_average_income_of_all_employees(lookup_all_employees(0, &pool), &mut source);
    assert_eq!(totals, SalaryTotals { count: 0, sum: 0 });
    assert_eq!(source.sample_index(1 << 20), twin.gen_range(0..1usize << 20));
}

#[test]
fn stream_at_its_end_draws_nothing() {
    let pool = char_pool();
    let mut source = FastSource::from_rng(fastrand::Rng::with_seed(9));
    let mut twin = fastrand::Rng::with_seed(9);
    let mut employees = lookup_all_employees(0, &pool);
    assert!(employees.next_employee(&mut source).is_none());
    assert!(employees.next_employee(&mut source).is_none());
    assert_eq!(source.sample_index(1 << 20), twin.usize(0..1 << 20));
}

#[test]
fn stream_of_zero_over_an_empty_pool() {
    let pool: Vec<char> = Vec::new();
    let mut source = FastSource::new();
    let totals = compute_average_income_of_all_employees(lookup_all_employees(0, &pool), &mut source);
    assert_eq!(totals.count, 0);
}

#[test]
fn stream_continues_one_source_across_employees() {
    let pool = char_pool();
    let mut source = FastSource::from_rng(fastrand::Rng::with_seed(31));
    let mut twin = fastrand::Rng::with_seed(31);
    let totals = compute_average_income_of_all_employees(lookup_all_employees(4, &pool), &mut source);
    assert_eq!(totals.count, 4);
    for _ in 0..4 * 480 {
        twin.usize(0..pool.len());
    }
    assert_eq!(source.sample_index(1 << 20), twin.usize(0..1 << 20));
}

#[test]
fn stream_yields_what_the_generator_spells() {
    let pool = char_pool();
    let mut source = FastSource::from_rng(fastrand::Rng::with_seed(12));
    let mut twin = fastrand::Rng::with_seed(12);
    let mut employees = lookup_all_employees(2, &pool);
    for _ in 0..2 {
        let employee = employees.next_employee(&mut source).unwrap();
        let mut first_name = String::new();
        for _ in 0..80 {
            first_name.push(pool[twin.usize(0..pool.len())]);
        }
        for _ in 0..400 {
            twin.usize(0..pool.len());
        }
        assert_eq!(employee.first_name, first_name);
    }
}

#[test]
fn mean_is_1000_for_every_size_and_backend() {
    let pool = char_pool();
    for requested in [1usize, 2, 3, 10, 999, 1000] {
        let mut fast = FastSource::new();
        let totals =
            compute_average_income_of_all_employees(lookup_all_employees(requested, &pool), &mut fast);
        assert_eq!(totals.count, requested as u64);
        assert_eq!(totals.sum, 1000 * requested as u64);
        assert_eq!(mean(&totals), 1000.0);
        assert_eq!(totals.whole_mean(), Some(1000));
        let mut small = small();
        let totals =
            compute_average_income_of_all_employees(lookup_all_employees(requested, &pool), &mut small);
        assert_eq!(totals, SalaryTotals { count: requested as u64, sum: 1000 * requested as u64 });
        assert_eq!(mean(&totals), 1000.0);
        assert_eq!(totals.whole_mean(), Some(1000));
    }
}

#[test]
fn mean_of_nothing_is_not_a_number() {
    let pool = char_pool();
    let mut source = FastSource::new();
    let totals = compute_average_income_of_all_employees(lookup_all_employees(0, &pool), &mut source);
    assert_eq!(totals, SalaryTotals { count: 0, sum: 0 });
    assert!(mean(&totals).is_nan());
    assert_eq!(totals.whole_mean(), None);
    assert!(mean(&totals_of(&[])).is_nan());
}

#[test]
fn mean_of_given_salaries_is_sum_over_count() {
    assert_eq!(totals_of(&[1, 2]), SalaryTotals { count: 2, sum: 3 });
    assert_eq!(mean(&totals_of(&[1, 2])), 1.5);
    assert_eq!(totals_of(&[5]), SalaryTotals { count: 1, sum: 5 });
    assert_eq!(totals_of(&[0, 0, 0]), SalaryTotals { count: 3, sum: 0 });
    assert_eq!(mean(&totals_of(&[0, 0, 0])), 0.0);
    assert_eq!(totals_of(&[10, 20, 30, 40]), SalaryTotals { count: 4, sum: 100 });
    assert_eq!(mean(&totals_of(&[10, 20, 30, 40])), 25.0);
    assert_eq!(totals_of(&[u64::MAX - 7, 7]), SalaryTotals { count: 2, sum: u64::MAX });
}

#[test]
fn mean_does_not_depend_on_the_order() {
    let one = totals_of(&[3, 1, 4, 1, 5, 9, 2, 6]);
    let other = totals_of(&[9, 6, 5, 4, 3, 2, 1, 1]);
    assert_eq!(one, other);
    assert_eq!(mean(&one), mean(&other));
}

#[test]
fn mean_lies_between_the_smallest_and_the_largest() {
    let totals = totals_of(&[700, 1200, 950, 701]);
    assert!(700.0 <= mean(&totals) && mean(&totals) <= 1200.0);
    assert!(700 * totals.count <= totals.sum && totals.sum <= 1200 * totals.count);
}

#[test]
fn mean_does_not_depend_on_names_and_addresses() {
    let pool = char_pool();
    let mut source = FastSource::new();
    let generated = compute_average_income_of_all_employees(lookup_all_employees(3, &pool), &mut source);
    assert_eq!(generated, totals_of(&[1000, 1000, 1000]));
}

#[test]
fn list_hands_out_in_the_order_given() {
    let mut source = FastSource::from_rng(fastrand::Rng::with_seed(4));
    let mut twin = fastrand::Rng::with_seed(4);
    let mut list = EmployeeList::new(vec![paid(1), paid(2), paid(3)]);
    assert_eq!(list.next_employee(&mut source).unwrap().salary, 1);
    assert_eq!(list.next_employee(&mut source).unwrap().salary, 2);
    assert_eq!(list.next_employee(&mut source).unwrap().salary, 3);
    assert!(list.next_employee(&mut source).is_none());
    assert!(list.next_employee(&mut source).is_none());
    assert_eq!(source.sample_index(1 << 20), twin.usize(0..1 << 20));
}

#[test]
fn list_of_nothing_hands_out_nothing() {
    let mut list = EmployeeList::new(Vec::new());
    assert!(list.next_employee(&mut FastSource::new()).is_none());
}

#[test]
fn whole_mean_divides_and_rounds_down() {
    assert_eq!(SalaryTotals { count: 4, sum: 10 }.whole_mean(), Some(2));
    assert_eq!(SalaryTotals { count: 3, sum: 3000 }.whole_mean(), Some(1000));
    assert_eq!(SalaryTotals { count: 1, sum: 0 }.whole_mean(), Some(0));
    assert_eq!(SalaryTotals { count: 7, sum: 6 }.whole_mean(), Some(0));
    assert_eq!(SalaryTotals { count: 0, sum: 0 }.whole_mean(), None);
    assert_eq!(SalaryTotals { count: 0, sum: 5 }.whole_mean(), None);
    assert_eq!(SalaryTotals { count: 1, sum: u64::MAX }.whole_mean(), Some(u64::MAX));
}

#[test]
fn counting_adds_one_salary() {
    let totals = SalaryTotals { count: 2, sum: 5 }.counting(7);
    assert_eq!(totals, SalaryTotals { count: 3, sum: 12 });
    assert_eq!(SalaryTotals { count: 0, sum: 0 }.counting(1000), SalaryTotals { count: 1, sum: 1000 });
}

#[test]
fn trial_reports_size_totals_and_time() {
    let pool = char_pool();
    let mut source = small();
    let trial = run_trial(&mut source, 1000, &pool);
    assert_eq!(trial.number_of_employees, 1000);
    assert_eq!(trial.totals, SalaryTotals { count: 1000, sum: 1_000_000 });
    assert!(trial.elapsed >= std::time::Duration::ZERO);
    assert!(trial.elapsed < std::time::Duration::from_secs(20));
}

#[test]
fn trial_of_zero_is_empty() {
    let pool = char_pool();
    let mut source = FastSource::new();
    let trial = run_trial(&mut source, 0, &pool);
    assert_eq!(trial.number_of_employees, 0);
    assert_eq!(trial.totals, SalaryTotals { count: 0, sum: 0 });
    assert!(mean(&trial.totals).is_nan());
}

#[test]
fn trial_time_grows_with_the_work() {
    let pool = char_pool();
    let mut source = FastSource::new();
    let nothing = run_trial(&mut source, 0, &pool);
    let much = run_trial(&mut source, 20_000, &pool);
    assert!(much.elapsed > nothing.elapsed);
}

fn check_report_line<R: RandomSource>(source: &mut R) {
    let pool = char_pool();
    let trial = run_trial(source, 1000, &pool);
    let line = format!(
        "n={} Average = {} Duration = {}ms",
        trial.number_of_employees,
        mean(&trial.totals),
        trial.elapsed.as_millis()
    );
    assert!(line.starts_with("n=1000 Average = 1000 Duration = "));
    assert!(line.ends_with("ms"));
    let millis = &line["n=1000 Average = 1000 Duration = ".len()..line.len() - 2];
    assert!(millis.parse::<u128>().is_ok());
}

#[test]
fn report_line_for_1000_employees() {
    check_report_line(&mut FastSource::new());
    check_report_line(&mut small());
}

#[test]
fn workload_sizes_are_the_four_powers_of_ten() {
    assert_eq!(WORKLOAD_SIZES, [1000, 10000, 100000, 1000000]);
    assert_eq!(WORKLOAD_TOTAL, WORKLOAD_SIZES.iter().sum::<usize>());
}

#[test]
fn banners_name_the_backend() {
    assert_eq!(Backend::Small.banner(), "Benchmarking small random number generator");
    assert_eq!(Backend::Fast.banner(), "Benchmarking fast random number generator");
}

#[test]
fn benchmark_runs_every_size_in_order() {
    let mut source = FastSource::from_rng(fastrand::Rng::with_seed(1));
    let mut twin = fastrand::Rng::with_seed(1);
    let report = run_benchmark(Backend::Fast, &mut source);
    assert_eq!(report.backend, Backend::Fast);
    assert_eq!(report.trials.len(), 4);
    for (trial, size) in report.trials.iter().zip(WORKLOAD_SIZES) {
        assert_eq!(trial.number_of_employees, size);
        assert_eq!(trial.totals, SalaryTotals { count: size as u64, sum: 1000 * size as u64 });
        assert_eq!(mean(&trial.totals), 1000.0);
    }
    for _ in 0..WORKLOAD_TOTAL * 480 {
        twin.usize(0..62);
    }
    assert_eq!(source.sample_index(1 << 20), twin.usize(0..1 << 20));
}

#[test]
fn benchmark_of_the_fast_backend() {
    let report = compute_average_income::fast_rand::benchmark();
    assert_eq!(report.backend, Backend::Fast);
    let sizes: Vec<usize> = report.trials.iter().map(|trial| trial.number_of_employees).collect();
    assert_eq!(sizes, vec![1000, 10000, 100000, 1000000]);
    assert!(report.trials.iter().all(|trial| mean(&trial.totals) == 1000.0));
}

#[test]
fn benchmark_of_the_small_backend() {
    let seeded = SmallRng::from_rng(rand::thread_rng());
    let report = compute_average_income::small_random::benchmark(seeded).unwrap();
    assert_eq!(report.backend, Backend::Small);
    let sizes: Vec<usize> = report.trials.iter().map(|trial| trial.number_of_employees).collect();
    assert_eq!(sizes, vec![1000, 10000, 100000, 1000000]);
    assert!(report.trials.iter().all(|trial| mean(&trial.totals) == 1000.0));
}

#[test]
fn benchmark_on_failed_seeding_gives_the_error() {
    let failed = compute_average_income::small_random::benchmark(Err(rand::Error::new("no entropy")));
    assert!(matches!(failed, Err(SourceError::SeedingFailed)));
}

#[test]
fn benchmark_on_a_seeded_generator_runs_every_size() {
    let seeded = Ok(SmallRng::seed_from_u64(5));
    let report = compute_average_income::small_random::benchmark(seeded).unwrap();
    assert_eq!(report.backend, Backend::Small);
    assert_eq!(report.trials.len(), 4);
    for (trial, size) in report.trials.iter().zip(WORKLOAD_SIZES) {
        assert_eq!(trial.number_of_employees, size);
        assert_eq!(trial.totals, SalaryTotals { count: size as u64, sum: 1000 * size as u64 });
    }
}

#[test]
fn seeding_that_failed_gives_the_error() {
    let failed = SmallSource::from_seeding(Err(rand::Error::new("no entropy")));
    assert!(matches!(failed, Err(SourceError::SeedingFailed)));
}

#[test]
fn seeding_that_succeeded_gives_the_source() {
    let seeded = SmallSource::from_seeding(Ok(SmallRng::seed_from_u64(8)));
    let mut twin = SmallRng::seed_from_u64(8);
    let mut source = seeded.ok().unwrap();
    assert_eq!(source.sample_index(62), twin.gen_range(0..62usize));
}
