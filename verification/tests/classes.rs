use std::collections::HashSet;
use trid::is_valid;
use trid::Error;
use trid::ErrorKind;
use trid::TurkishId;

const VALID_NUMBERS: &[&str] = &[
    "19191919190",
    "76558242278",
    "80476431508",
    "76735508630",
    "90794350894",
    "43473624496",
    "10000000146",
    "56673392584",
    "29260807600",
    "93212606504",
    "35201408508",
    "64404737702",
    "10000000146",
];

const INVALID_NUMBERS: &[(&str, ErrorKind)] = &[
    ("04948892948", ErrorKind::InvalidDigit),    // first digit zero
    ("14948892946", ErrorKind::InvalidChecksum), // last checksum INVALID
    ("14948892937", ErrorKind::InvalidChecksum), // first checksum INVALID
    // non numeric chars
    ("A4948892948", ErrorKind::InvalidDigit),
    ("7B558242278", ErrorKind::InvalidDigit),
    ("80C76431508", ErrorKind::InvalidDigit),
    ("767D5508630", ErrorKind::InvalidDigit),
    ("9079E350894", ErrorKind::InvalidDigit),
    ("43473F24496", ErrorKind::InvalidDigit),
    ("566733G2584", ErrorKind::InvalidDigit),
    ("2926080H600", ErrorKind::InvalidDigit),
    ("93212606I04", ErrorKind::InvalidDigit),
    ("352014085J8", ErrorKind::InvalidDigit),
    ("3520140853K", ErrorKind::InvalidDigit),
    // spaces
    (" 7655824227", ErrorKind::InvalidDigit),
    ("5582422781 ", ErrorKind::InvalidDigit),
    // uneven length
    ("", ErrorKind::InvalidLength),
    ("7", ErrorKind::InvalidLength),
    ("76", ErrorKind::InvalidLength),
    ("76558", ErrorKind::InvalidLength),
    ("765582", ErrorKind::InvalidLength),
    ("7655824", ErrorKind::InvalidLength),
    ("76558242", ErrorKind::InvalidLength),
    ("765582422", ErrorKind::InvalidLength),
    ("7655824227", ErrorKind::InvalidLength),
    ("765582422781", ErrorKind::InvalidLength),
];

#[test]
fn tests_is_valid_validnumbers_returns_true() {
    for number in VALID_NUMBERS {
        assert!(is_valid(number));
    }
}

#[test]
fn tests_is_valid_invalidnumbers_returns_false() {
    for (number, _) in INVALID_NUMBERS {
        assert!(!is_valid(number));
    }
}

#[test]
fn tests_parse_invalidnumbers_returns_correct_error() {
    for (number, error) in INVALID_NUMBERS {
        assert_eq!(*error, number.parse::<TurkishId>().err().unwrap().kind());
    }
}

#[test]
fn tests_hashset_compatible() {
    let mut set = HashSet::new();
    let num = VALID_NUMBERS[0].parse::<TurkishId>().unwrap();
    set.insert(num);
    let num2 = VALID_NUMBERS[0].parse::<TurkishId>().unwrap();
    set.insert(num2);
    assert_eq!(num2, num);
    assert_eq!(1, set.len());
}

#[test]
fn tests_display_returnsthesamerepresentation() {
    for number in VALID_NUMBERS {
        let id: TurkishId = number.parse().unwrap();
        let id = id.to_string();
        let idstr = format!("{id}");
        assert_eq!(idstr, *number);
    }
}

#[test]
fn kind_of_each_error() {
    assert_eq!(Error::InvalidLength.kind(), ErrorKind::InvalidLength);
    assert_eq!(Error::InvalidCharacter('x').kind(), ErrorKind::InvalidDigit);
    assert_eq!(Error::FirstDigitIsZero.kind(), ErrorKind::InvalidDigit);
    assert_eq!(Error::InvalidFinalChecksum.kind(), ErrorKind::InvalidChecksum);
    assert_eq!(Error::InvalidInitialChecksum.kind(), ErrorKind::InvalidChecksum);
}

#[test]
fn distinct_numbers_stay_distinct_in_a_set() {
    let mut set = HashSet::new();
    for number in VALID_NUMBERS {
        set.insert(number.parse::<TurkishId>().unwrap());
    }
    // the list names one number twice
    assert_eq!(set.len(), VALID_NUMBERS.len() - 1);
}
