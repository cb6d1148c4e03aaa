use monero_vanity::cli::{
    write_fragment, write_key_pair, write_split_key, Cli, CliAction, CliError,
};
use monero_vanity::keys::{address_of, parse_private_key, parse_public_key, FoundResult};
use monero_vanity::curve::{CurvePoint, Scalar};
use monero_vanity::pattern::InvalidPattern;
use monero_vanity::state::RunPhase;
use monero_vanity::threads::{ThreadNotice, Threads};

const A: &str = "0b00000000000000000000000000000000000000000000000000000000000000";
const B: &str = "1600000000000000000000000000000000000000000000000000000000000000";
const BASE: &str = "5866666666666666666666666666666666666666666666666666666666666666";

fn cli(pattern: &str) -> Cli {
    Cli {
        threads: 3,
        pattern: pattern.to_string(),
        first: false,
        refresh: 500,
        gen_private_split_key: false,
        calculate_split_key: None,
        join_split_key: None,
    }
}

fn refusal(cli: &Cli) -> CliError {
    match cli.handle_args(Threads::new(8)) {
        Err(e) => e,
        Ok(_) => panic!("accepted"),
    }
}

#[test]
fn exit_codes() {
    assert_eq!(CliError::Pattern(InvalidPattern::Empty).exit_code(), 1);
    assert_eq!(CliError::Pattern(InvalidPattern::Forbidden('I')).exit_code(), 2);
    assert_eq!(CliError::Pattern(InvalidPattern::Forbidden('O')).exit_code(), 3);
    assert_eq!(CliError::Pattern(InvalidPattern::Forbidden('l')).exit_code(), 4);
    assert_eq!(CliError::Pattern(InvalidPattern::Forbidden('0')).exit_code(), 5);
    assert_eq!(CliError::Pattern(InvalidPattern::Forbidden('+')).exit_code(), 6);
    assert_eq!(CliError::Pattern(InvalidPattern::Forbidden('/')).exit_code(), 7);
    assert_eq!(CliError::Pattern(InvalidPattern::Malformed).exit_code(), 8);
    assert_eq!(CliError::PublicKey.exit_code(), 9);
    assert_eq!(CliError::PrivateKey.exit_code(), 10);
}

#[test]
fn bad_patterns_are_refused_before_anything_starts() {
    assert_eq!(refusal(&cli("")), CliError::Pattern(InvalidPattern::Empty));
    assert_eq!(refusal(&cli("hI")), CliError::Pattern(InvalidPattern::Forbidden('I')));
    assert_eq!(refusal(&cli("a0")), CliError::Pattern(InvalidPattern::Forbidden('0')));
    assert_eq!(refusal(&cli("(")), CliError::Pattern(InvalidPattern::Malformed));
    let mut raw = cli("a/b");
    raw.first = true;
    assert_eq!(refusal(&raw), CliError::Pattern(InvalidPattern::Forbidden('/')));
}

#[test]
fn a_search_is_set_up() {
    match cli("hinto").handle_args(Threads::new(8)) {
        Ok(CliAction::Search(state, notice, refresh)) => {
            assert_eq!(state.threads, 3);
            assert_eq!(notice, ThreadNotice::Accepted);
            assert_eq!(refresh, 500);
            assert_eq!(state.pattern_string, "^..hinto.*$");
            assert!(state.pattern.unwrap().matches("44hinto1234"));
            assert_eq!(state.phase, RunPhase::Idle);
            assert!(state.split_key.is_none());
            assert_eq!(state.history, "");
        },
        _ => panic!("no search"),
    }
}

#[test]
fn first_uses_the_pattern_as_it_stands() {
    let mut raw = cli("^4[45]h");
    raw.first = true;
    match raw.handle_args(Threads::new(8)) {
        Ok(CliAction::Search(state, _, _)) => assert_eq!(state.pattern_string, "^4[45]h"),
        _ => panic!("no search"),
    }
}

#[test]
fn thread_counts_are_corrected() {
    let mut zero = cli("hinto");
    zero.threads = 0;
    match zero.handle_args(Threads::new(8)) {
        Ok(CliAction::Search(state, notice, _)) => {
            assert_eq!(state.threads, 4);
            assert_eq!(notice, ThreadNotice::DefaultedToHalf);
        },
        _ => panic!("no search"),
    }
    let mut many = cli("hinto");
    many.threads = 100;
    match many.handle_args(Threads::new(8)) {
        Ok(CliAction::Search(state, notice, _)) => {
            assert_eq!(state.threads, 8);
            assert_eq!(notice, ThreadNotice::ClampedToMax);
        },
        _ => panic!("no search"),
    }
}

#[test]
fn split_key_options() {
    let mut gen = cli("");
    gen.gen_private_split_key = true;
    gen.join_split_key = Some(vec!["zz".to_string()]);
    assert!(matches!(gen.handle_args(Threads::new(8)), Ok(CliAction::GenPrivateSplitKey)));

    let mut join = cli("");
    join.join_split_key = Some(vec![A.to_string(), B.to_string()]);
    match join.handle_args(Threads::new(8)) {
        Ok(CliAction::JoinSplitKey(a, b)) => {
            assert_eq!(a.to_bytes(), Scalar::from_u64(11).to_bytes());
            assert_eq!(b.to_bytes(), Scalar::from_u64(22).to_bytes());
        },
        _ => panic!("no join"),
    }
    join.join_split_key = Some(vec![A.to_string(), "zz".to_string()]);
    assert_eq!(refusal(&join), CliError::PrivateKey);
    join.join_split_key = Some(vec!["zz".to_string(), B.to_string()]);
    assert_eq!(refusal(&join), CliError::PrivateKey);
    join.join_split_key = Some(vec![A.to_string()]);
    assert_eq!(refusal(&join), CliError::PrivateKey);
}

#[test]
fn helper_search_needs_a_point() {
    let mut helper = cli("hinto");
    helper.calculate_split_key = Some(BASE.to_string());
    match helper.handle_args(Threads::new(8)) {
        Ok(CliAction::Search(state, _, _)) => {
            assert_eq!(state.split_key.unwrap().compress(), CurvePoint::base_point().compress());
        },
        _ => panic!("no search"),
    }
    helper.calculate_split_key = Some("nonsense".to_string());
    assert_eq!(refusal(&helper), CliError::PublicKey);
    helper.pattern = "hI".to_string();
    assert_eq!(refusal(&helper), CliError::Pattern(InvalidPattern::Forbidden('I')));
}

#[test]
fn split_key_is_written_out() {
    assert_eq!(
        write_split_key("aa", "bb"),
        "Private Split Key (keep hidden)   | aa\n\
         Public Split Key (give this out)  | bb\n\
         generate other part with: ./monero-vanity --calculate-split-key bb --pattern PATTERN_YOU_WANT"
    );
}

#[test]
fn key_pair_is_written_out() {
    let result = FoundResult {
        address: "4x".to_string(),
        spend_key: "s".to_string(),
        view_key: "v".to_string(),
    };
    assert_eq!(
        write_key_pair(&result),
        "Monero Address             | 4x\n\
         Private Spend Key          | s\n\
         Private View Key           | v\n\
         Recover with: ./monero-wallet-cli --generate-from-spend-key YOUR_WALLET_NAME"
    );
}

#[test]
fn fragment_is_written_out() {
    assert_eq!(
        write_fragment("abc"),
        "Calculated Split Key part  | abc\n\
         Join keys with: ./monero-vanity --join-split-key abc PRIVATE_SPLIT_KEY_PART"
    );
}

#[test]
fn generated_split_key_reads_back() {
    let text = Cli::gen_private_split_key();
    let lines: Vec<&str> = text.lines().collect();
    assert_eq!(lines.len(), 3);
    let private = lines[0].strip_prefix("Private Split Key (keep hidden)   | ").unwrap();
    let public = lines[1].strip_prefix("Public Split Key (give this out)  | ").unwrap();
    let scalar = parse_private_key(private).unwrap();
    let point = parse_public_key(public).unwrap();
    assert_eq!(point.compress(), scalar.public_point().compress());
    assert!(lines[2].contains(public));
}

#[test]
fn joined_split_key_is_written_out() {
    let text = Cli::join_split_key(&Scalar::from_u64(11), &Scalar::from_u64(22));
    let lines: Vec<&str> = text.lines().collect();
    assert_eq!(lines.len(), 4);
    let address = lines[0].strip_prefix("Monero Address             | ").unwrap();
    let spend = lines[1].strip_prefix("Private Spend Key          | ").unwrap();
    let view = lines[2].strip_prefix("Private View Key           | ").unwrap();
    assert_eq!(parse_private_key(spend).unwrap().to_bytes(), Scalar::from_u64(33).to_bytes());
    let view = parse_private_key(view).unwrap();
    assert_eq!(address, address_of(&Scalar::from_u64(33).public_point(), &view.public_point()));
}

#[test]
fn refusals_in_words() {
    assert_eq!(CliError::Pattern(InvalidPattern::Empty).message(), "Address pattern is empty");
    assert_eq!(
        CliError::Pattern(InvalidPattern::Forbidden('0')).message(),
        "Address pattern must not contain '0'"
    );
    assert_eq!(CliError::Pattern(InvalidPattern::Malformed).message(), "Regex failed to build");
    assert_eq!(CliError::PublicKey.message(), "Public key entered is not a valid point");
    assert_eq!(CliError::PrivateKey.message(), "Private key part entered is not a valid scalar");
}
