use biblearchive::barbook::barchapter::rcsubstring::RcSubstring;
use std::rc::Rc;

#[test]
fn test_usage() {
    let text = "Line 1
Line 2
Line 3";
    let rcstring = Rc::new(text.to_string());
    let pos = text.find("\n").unwrap();
    let rcsubstring = RcSubstring::new(rcstring.clone(), 0..pos);
    let string_rep = format!("{}", &*rcsubstring);
    assert_eq!(string_rep, "Line 1");
    let debug_rep = format!("{:?}", rcsubstring);
    assert_eq!(
        debug_rep,
        "RcSubstring { rcstring: \"Line 1\\nLine 2\\nLine 3\", range: 0..6 }"
    );
    let pretty_rep = format!("{:#?}", rcsubstring);
    assert_eq!(
        pretty_rep,
        "RcSubstring {\n    rcstring: \"Line 1\\nLine 2\\nLine 3\",\n    range: 0..6,\n}"
    );
    assert_eq!(&rcsubstring[1..2], "i");
}

#[test]
fn substring_of_multibyte_text() {
    let rcstring = Rc::new("Ἐν ἀρχῇ\nλόγος".to_string());
    let pos = rcstring.find('\n').unwrap();
    let first = RcSubstring::new(rcstring.clone(), 0..pos);
    assert_eq!(first.as_str(), "Ἐν ἀρχῇ");
    let second = RcSubstring::new(rcstring.clone(), pos + 1..rcstring.len());
    assert_eq!(second.to_string(), "λόγος");
}
