use rustcom::serial::DataBits;
use rustcom::serial::FlowControl;
use rustcom::serial::LineEnding;
use rustcom::serial::Parity;
use rustcom::serial::StopBits;
use rustcom::serial::parse_baud_rate;

#[test]
fn option_display_names() {
    assert_eq!(DataBits::Five.as_str(), "5");
    assert_eq!(DataBits::Eight.as_str(), "8");
    assert_eq!(StopBits::One.as_str(), "1");
    assert_eq!(StopBits::Two.as_str(), "2");
    assert_eq!(Parity::NoParity.as_str(), "None");
    assert_eq!(Parity::Even.as_str(), "Even");
    assert_eq!(Parity::Odd.as_str(), "Odd");
    assert_eq!(FlowControl::NoFlowControl.as_str(), "None");
    assert_eq!(FlowControl::Software.as_str(), "Software");
    assert_eq!(FlowControl::Hardware.as_str(), "Hardware");
}

#[test]
fn line_ending_names_and_bytes() {
    assert_eq!(LineEnding::NoEnding.as_str(), "None");
    assert_eq!(LineEnding::Cr.as_str(), "\\r");
    assert_eq!(LineEnding::Lf.as_str(), "\\n");
    assert_eq!(LineEnding::CrLf.as_str(), "\\r\\n");
    assert_eq!(LineEnding::NoEnding.as_bytes(), Vec::<u8>::new());
    assert_eq!(LineEnding::Cr.as_bytes(), vec![13]);
    assert_eq!(LineEnding::Lf.as_bytes(), vec![10]);
    assert_eq!(LineEnding::CrLf.as_bytes(), vec![13, 10]);
}

#[test]
fn baud_rate_accepts_digits() {
    assert_eq!(parse_baud_rate("9600"), Some(9600));
    assert_eq!(parse_baud_rate("115200"), Some(115200));
    assert_eq!(parse_baud_rate("0"), Some(0));
    assert_eq!(parse_baud_rate("042"), Some(42));
    assert_eq!(parse_baud_rate("4294967295"), Some(u32::MAX));
}

#[test]
fn baud_rate_rejects_non_numbers() {
    assert_eq!(parse_baud_rate(""), None);
    assert_eq!(parse_baud_rate("12a"), None);
    assert_eq!(parse_baud_rate("fast"), None);
    assert_eq!(parse_baud_rate("96 00"), None);
    assert_eq!(parse_baud_rate("-1"), None);
    assert_eq!(parse_baud_rate("4294967296"), None);
    assert_eq!(parse_baud_rate("99999999999999999999"), None);
}
