use tuwui::config::Config;

#[test]
fn logging_path_is_the_configured_one() {
    let c = Config { logging_path: String::from("/tmp/tuwui.log") };
    assert_eq!(c.logging_path(), "/tmp/tuwui.log");
}

#[test]
fn program_errors_are_distinct() {
    assert_ne!(tuwui::Error::Init, tuwui::Error::Run);
    assert_eq!(tuwui::event::Error::RecvFail, tuwui::event::Error::RecvFail);
}
