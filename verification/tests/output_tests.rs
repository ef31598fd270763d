use cni_gesprek::output::{MockOutputWriter, OutputWriter, SilentOutputWriter};

#[test]
fn test_mock_output_writer() {
    let mut writer = MockOutputWriter::new();

    writer.write_output("test output").unwrap();
    writer.write_error("test error").unwrap();

    assert_eq!(writer.get_output(), vec!["test output"]);
    assert_eq!(writer.get_errors(), vec!["test error"]);
}

#[test]
fn test_silent_writer() {
    let mut writer = SilentOutputWriter;

    // These should not panic
    writer.write_output("test").unwrap();
    writer.write_error("error").unwrap();
}

#[test]
fn mock_writer_combines_and_clears() {
    let mut writer = MockOutputWriter::default();
    assert_eq!(writer.get_combined_output(), "");
    writer.write_output("one").unwrap();
    writer.write_output("two").unwrap();
    writer.write_error("bad").unwrap();
    writer.write_error("worse").unwrap();
    assert_eq!(writer.get_combined_output(), "one\ntwo");
    assert_eq!(writer.get_combined_errors(), "bad\nworse");
    writer.clear();
    assert!(writer.get_output().is_empty());
    assert!(writer.get_errors().is_empty());
    assert_eq!(writer.get_combined_errors(), "");
}

#[test]
fn standard_writer_writes_lines() {
    let mut writer = cni_gesprek::output::StandardOutputWriter;
    assert!(writer.write_output("standard output line").is_ok());
    assert!(writer.write_error("standard error line").is_ok());
}
