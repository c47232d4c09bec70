use discord_bot::counter::CommandCounter;

#[test]
fn empty_report() {
    let c = CommandCounter::new();
    assert_eq!(c.report(), "Commands used:\n");
}

#[test]
fn record_counts_each_command() {
    let mut c = CommandCounter::new();
    c.record("test");
    c.record("say");
    c.record("test");
    assert_eq!(c.report(), "Commands used:\ntest: 2\nsay: 1\n");
    c.record("commands");
    assert_eq!(c.report(), "Commands used:\ntest: 2\nsay: 1\ncommands: 1\n");
}

#[test]
fn counts_of_commands() {
    let mut c = CommandCounter::new();
    assert_eq!(c.count("test"), 0);
    c.record("test");
    c.record("test");
    c.record("say");
    assert_eq!(c.count("test"), 2);
    assert_eq!(c.count("say"), 1);
    assert_eq!(c.count("help"), 0);
}
