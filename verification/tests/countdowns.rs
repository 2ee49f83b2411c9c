use timer::{CountdownTimer, Duration, Timer};

fn wait(span: Duration) {
    let watch = Timer::new();
    while watch.elapsed().as_nanos() < span.as_nanos() {
        std::hint::spin_loop();
    }
}

#[test]
fn stopwatch_never_runs_backwards() {
    let watch = Timer::new();
    let first = watch.elapsed();
    wait(Duration::from_millis(2));
    let second = watch.elapsed();
    assert!(second.as_nanos() >= first.as_nanos() + 2_000_000);
    assert!(second.as_nanos() <= 18_446_744_073_709_551_615_999_999_999);
}

#[test]
fn stopwatch_measures_a_wait() {
    let std_start = std::time::Instant::now();
    let watch = Timer::new();
    wait(Duration::from_millis(5));
    let seen = watch.elapsed();
    let outer = std_start.elapsed().as_nanos();
    assert!(seen.as_nanos() >= 5_000_000);
    assert!(seen.as_nanos() <= outer);
}

#[test]
fn countdown_is_not_finished_at_its_start() {
    let span = Duration::new(3_600, 0);
    let countdown = CountdownTimer::new(span);
    assert!(!countdown.is_finished());
    let left = countdown.remaining();
    assert!(left.as_nanos() <= span.as_nanos());
    assert!(left.as_nanos() > Duration::new(3_500, 0).as_nanos());
    assert_eq!(countdown.duration(), span);
}

#[test]
fn countdown_over_nothing_is_finished_at_once() {
    let countdown = CountdownTimer::new(Duration::zero());
    assert!(countdown.is_finished());
    assert_eq!(countdown.remaining(), Duration::zero());
    assert!(countdown.is_finished_after(Duration::zero()));
}

#[test]
fn remaining_after_is_the_clamped_difference() {
    let countdown = CountdownTimer::new(Duration::from_millis(100));
    assert_eq!(countdown.remaining_after(Duration::zero()), Duration::from_millis(100));
    assert_eq!(countdown.remaining_after(Duration::from_millis(30)), Duration::from_millis(70));
    assert_eq!(countdown.remaining_after(Duration::from_nanos(99_999_999)), Duration::from_nanos(1));
    assert_eq!(countdown.remaining_after(Duration::from_millis(100)), Duration::zero());
    assert_eq!(countdown.remaining_after(Duration::from_millis(101)), Duration::zero());
    assert_eq!(countdown.remaining_after(Duration::from_nanos(u128::MAX)), Duration::zero());
}

#[test]
fn finished_exactly_from_the_target_on() {
    let countdown = CountdownTimer::new(Duration::from_millis(100));
    assert!(!countdown.is_finished_after(Duration::zero()));
    assert!(!countdown.is_finished_after(Duration::from_nanos(99_999_999)));
    assert!(countdown.is_finished_after(Duration::from_millis(100)));
    assert!(countdown.is_finished_after(Duration::new(10, 0)));
    assert!(countdown.is_finished_after(Duration::from_nanos(u128::MAX)));
}

#[test]
fn countdown_finishes_when_its_span_has_passed() {
    let countdown = CountdownTimer::new(Duration::from_millis(5));
    wait(Duration::from_millis(6));
    assert!(countdown.is_finished());
    assert_eq!(countdown.remaining(), Duration::zero());
    assert!(countdown.elapsed().as_nanos() >= 5_000_000);
    wait(Duration::from_millis(3));
    assert!(countdown.is_finished());
    assert_eq!(countdown.remaining(), Duration::zero());
}

#[test]
fn reset_starts_the_countdown_again() {
    let span = Duration::new(600, 0);
    let mut countdown = CountdownTimer::new(span);
    wait(Duration::from_millis(20));
    let before = countdown.elapsed();
    countdown.reset();
    let after = countdown.elapsed();
    assert!(before.as_nanos() >= 20_000_000);
    assert!(!countdown.is_finished());
    assert_eq!(countdown.duration(), span);
    assert!(countdown.remaining().as_nanos() <= span.as_nanos());
    assert!(countdown.remaining().as_nanos() > Duration::new(590, 0).as_nanos());
    assert!(after.as_nanos() < Duration::new(10, 0).as_nanos());
}

#[test]
fn reset_revives_a_finished_countdown() {
    let mut countdown = CountdownTimer::new(Duration::new(60, 0));
    assert!(countdown.is_finished_after(Duration::new(61, 0)));
    let mut short = CountdownTimer::new(Duration::from_millis(2));
    wait(Duration::from_millis(3));
    assert!(short.is_finished());
    countdown.reset();
    assert!(!countdown.is_finished());
    short.reset();
    assert!(short.remaining().as_nanos() <= 2_000_000);
}

#[test]
fn reset_at_counts_from_the_given_reading() {
    let mut countdown = CountdownTimer::new(Duration::from_millis(20));
    let past = std::time::Instant::now()
        .checked_sub(std::time::Duration::from_millis(50))
        .unwrap();
    countdown.reset_at(past);
    assert!(countdown.elapsed().as_nanos() >= 50_000_000);
    assert!(countdown.is_finished());
    assert_eq!(countdown.remaining(), Duration::zero());
    assert_eq!(countdown.duration(), Duration::from_millis(20));
    countdown.reset_at(std::time::Instant::now());
    assert!(countdown.elapsed().as_nanos() < 50_000_000);
}

#[test]
fn stopwatch_runs_from_the_given_reading() {
    let past = std::time::Instant::now()
        .checked_sub(std::time::Duration::from_millis(40))
        .unwrap();
    let watch = Timer::starting_at(past);
    let seen = watch.elapsed();
    assert!(seen.as_nanos() >= 40_000_000);
    assert!(seen.as_nanos() <= past.elapsed().as_nanos());
    let fresh = Timer::starting_at(std::time::Instant::now());
    assert!(fresh.elapsed().as_nanos() <= watch.elapsed().as_nanos());
}

#[test]
fn countdown_runs_from_the_given_reading() {
    let past = std::time::Instant::now()
        .checked_sub(std::time::Duration::from_millis(40))
        .unwrap();
    let done = CountdownTimer::starting_at(Duration::from_millis(30), past);
    assert_eq!(done.duration(), Duration::from_millis(30));
    assert!(done.elapsed().as_nanos() >= 40_000_000);
    assert!(done.is_finished());
    assert_eq!(done.remaining(), Duration::zero());
    let span = Duration::new(3_600, 0);
    let running = CountdownTimer::starting_at(span, past);
    assert_eq!(running.duration(), span);
    assert!(!running.is_finished());
    let left = running.remaining();
    assert!(left.as_nanos() <= span.as_nanos() - 40_000_000);
    assert!(left.as_nanos() >= span.as_nanos() - past.elapsed().as_nanos());
    let empty = CountdownTimer::starting_at(Duration::zero(), std::time::Instant::now());
    assert!(empty.is_finished());
}
