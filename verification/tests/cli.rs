use chip8::cli::Opt;

/// The cycle pause is the whole number of milliseconds in a cycle.
#[test]
fn cycle_millis_divides_the_second() {
    let opt = Opt { rom: String::from("game.ch8"), clock_rate: 250, symbol: '#' };
    assert_eq!(opt.cycle_millis(), 4);
    let slow = Opt { rom: String::new(), clock_rate: 1, symbol: '*' };
    assert_eq!(slow.cycle_millis(), 1000);
    let odd = Opt { rom: String::new(), clock_rate: 3, symbol: '*' };
    assert_eq!(odd.cycle_millis(), 333);
}
