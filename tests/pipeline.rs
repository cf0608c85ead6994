use blackscholes::{ImpliedVolatility, Inputs, OptionType};
use fno_iv::cli::Args;
use fno_iv::date::{day_number, month_length, parse_date};
use fno_iv::fno::{
    encode_option_type, iv_prep, normalize_row, process_data, split_data, text_eq, EnrichedRow,
    NormalizedRow, OptionClass, RawRow,
};
use fno_iv::price::{decimal_text, Price};

fn raw(
    symbol: &str,
    expiry: &str,
    strike: &str,
    option_type: &str,
    close: &str,
    timestamp: &str,
    contracts: &str,
) -> RawRow {
    RawRow {
        symbol: symbol.to_string(),
        expiry_dt: expiry.to_string(),
        strike_pr: strike.to_string(),
        option_typ: option_type.to_string(),
        close: close.to_string(),
        timestamp: timestamp.to_string(),
        contracts: contracts.to_string(),
    }
}

fn run(rows: &Vec<RawRow>, symbol: &str) -> Vec<EnrichedRow> {
    let normalized = process_data(rows, symbol);
    let (options, futures) = split_data(&normalized);
    iv_prep(&options, &futures)
}

fn call_iv(s: f32, k: f32, p: f32, t: f32) -> f64 {
    let inputs = Inputs {
        option_type: OptionType::Call,
        s,
        k,
        p: Some(p),
        r: 0.0,
        q: 0.0,
        t,
        sigma: None,
    };
    inputs.calc_rational_iv().unwrap_or(0.0)
}

#[test]
fn end_to_end_single_call() {
    let rows = vec![
        raw("NIFTY", "25-Jan-2024", "22000", "CE", "150", "18-Jan-2024", "120"),
        raw("NIFTY", "25-Jan-2024", "0", "XX", "22100", "18-Jan-2024", "500"),
    ];
    let out = run(&rows, "NIFTY");
    assert_eq!(out.len(), 1);
    let row = &out[0];
    assert_eq!(row.future_price.as_str(), "22100");
    assert_eq!(row.option_type, OptionClass::Call);
    assert_eq!(row.days_to_expiry, Some(7));
    let inputs = row.iv_inputs().expect("all inputs present");
    assert_eq!(inputs.strike_price.as_str(), "22000");
    assert_eq!(inputs.premium.as_str(), "150");
    assert_eq!(inputs.option_type.flag(), 0);
    let s: f32 = inputs.future_price.as_str().parse().unwrap();
    let k: f32 = inputs.strike_price.as_str().parse().unwrap();
    let p: f32 = inputs.premium.as_str().parse().unwrap();
    let t = inputs.days_to_expiry as f32 / 365.0;
    assert_eq!(s, 22100.0);
    assert!((t - 0.0192).abs() < 0.0001);
    let iv = call_iv(s, k, p, t);
    assert!(iv > 0.0);
    assert_eq!(iv, call_iv(s, k, p, t));
}

#[test]
fn normalizer_keeps_symbol_and_traded_rows() {
    let rows = vec![
        raw("NIFTY", "25-Jan-2024", "22000", "CE", "150", "18-Jan-2024", "0"),
        raw("BANKNIFTY", "25-Jan-2024", "46000", "PE", "300", "18-Jan-2024", "10"),
        raw("NIFTY", "25-Jan-2024", "22100", "PE", "90", "18-Jan-2024", "0.0"),
        raw("NIFTY", "25-Jan-2024", "22200", "CE", "60", "18-Jan-2024", "7"),
    ];
    let out = process_data(&rows, "NIFTY");
    assert_eq!(out.len(), 2);
    assert!(out.iter().all(|r| r.symbol == "NIFTY"));
    assert_eq!(out[0].strike_price.as_ref().unwrap().as_str(), "22100");
    assert_eq!(out[1].strike_price.as_ref().unwrap().as_str(), "22200");
}

#[test]
fn days_to_expiry_is_calendar_difference() {
    let row = normalize_row(&raw("NIFTY", "25-Jan-2024", "1", "CE", "1", "18-Jan-2024", "1"));
    assert_eq!(row.days_to_expiry, Some(7));
    let row = normalize_row(&raw("NIFTY", "1-Mar-2024", "1", "CE", "1", "28-Feb-2024", "1"));
    assert_eq!(row.days_to_expiry, Some(2));
    let row = normalize_row(&raw("NIFTY", "01-Jan-2025", "1", "CE", "1", "31-Dec-2024", "1"));
    assert_eq!(row.days_to_expiry, Some(1));
    let row = normalize_row(&raw("NIFTY", "18-Jan-2024", "1", "CE", "1", "25-Jan-2024", "1"));
    assert_eq!(row.days_to_expiry, Some(-7));
}

#[test]
fn unreadable_fields_become_missing() {
    let row = normalize_row(&raw("NIFTY", "2024-01-25", "abc", "CE", "", "18-Jan-2024", "1"));
    assert_eq!(row.expiry_date, None);
    assert_eq!(row.timestamp, parse_date("18-Jan-2024"));
    assert_eq!(row.days_to_expiry, None);
    assert!(row.strike_price.is_none());
    assert!(row.close_price.is_none());
}

#[test]
fn parse_date_values() {
    assert_eq!(parse_date("01-Jan-1970"), Some(0));
    assert_eq!(parse_date("1-Jan-1970"), Some(0));
    assert_eq!(parse_date("02-Jan-1970"), Some(1));
    assert_eq!(parse_date("31-Dec-1969"), Some(-1));
    assert_eq!(parse_date("01-Mar-2000"), Some(11017));
    assert_eq!(parse_date("25-JAN-2024"), parse_date("25-Jan-2024"));
    assert_eq!(parse_date("29-Feb-2024"), Some(19782));
    assert_eq!(parse_date("29-Feb-2023"), None);
    assert_eq!(parse_date("29-Feb-1900"), None);
    assert_eq!(parse_date("29-Feb-2000"), Some(11016));
    assert_eq!(parse_date("31-Apr-2024"), None);
    assert_eq!(parse_date("00-Jan-2024"), None);
    assert_eq!(parse_date("25-Jnu-2024"), None);
    assert_eq!(parse_date("25/Jan/2024"), None);
    assert_eq!(parse_date("25-Jan-24"), None);
    assert_eq!(parse_date(""), None);
}

#[test]
fn month_lengths_and_day_numbers() {
    assert_eq!(month_length(2024, 2), 29);
    assert_eq!(month_length(2023, 2), 28);
    assert_eq!(month_length(1900, 2), 28);
    assert_eq!(month_length(2000, 2), 29);
    assert_eq!(month_length(2024, 4), 30);
    assert_eq!(month_length(2024, 12), 31);
    assert_eq!(day_number(1970, 1, 1), 0);
    assert_eq!(day_number(2024, 1, 25) - day_number(2024, 1, 18), 7);
    assert_eq!(day_number(0, 1, 1), -719528);
    assert_eq!(day_number(9999, 12, 31), 2932896);
}

#[test]
fn decimal_prices() {
    for ok in ["22000", "150.5", "-0.75", "+3", ".5", "5.", "007"] {
        assert!(decimal_text(ok), "{ok}");
        assert_eq!(Price::parse(ok).unwrap().as_str(), ok);
    }
    for bad in ["", ".", "-", "+.", "1.2.3", "abc", "1e5", "12 ", "--1", "1-"] {
        assert!(!decimal_text(bad), "{bad}");
        assert!(Price::parse(bad).is_none());
    }
}

#[test]
fn split_is_a_partition() {
    let rows = vec![
        raw("NIFTY", "25-Jan-2024", "22000", "CE", "150", "18-Jan-2024", "1"),
        raw("NIFTY", "25-Jan-2024", "0", "XX", "22100", "18-Jan-2024", "1"),
        raw("NIFTY", "25-Jan-2024", "21900", "PE", "80", "18-Jan-2024", "1"),
        raw("NIFTY", "29-Feb-2024", "0", "XX", "22300", "18-Jan-2024", "1"),
        raw("NIFTY", "25-Jan-2024", "21800", "ZZ", "70", "18-Jan-2024", "1"),
    ];
    let normalized = process_data(&rows, "NIFTY");
    let (options, futures) = split_data(&normalized);
    assert_eq!(options.len() + futures.len(), normalized.len());
    assert_eq!(options.len(), 3);
    assert_eq!(futures.len(), 2);
    assert!(options.iter().all(|r| r.option_type != "XX"));
    assert!(futures.iter().all(|r| r.option_type == "XX"));
    let strikes: Vec<&str> = options
        .iter()
        .map(|r| r.strike_price.as_ref().unwrap().as_str())
        .collect();
    assert_eq!(strikes, vec!["22000", "21900", "21800"]);
    assert_eq!(futures[1].close_price.as_ref().unwrap().as_str(), "22300");
}

#[test]
fn join_drops_unmatched_options() {
    let rows = vec![
        raw("NIFTY", "25-Jan-2024", "22000", "CE", "150", "18-Jan-2024", "1"),
        raw("NIFTY", "01-Feb-2024", "22000", "CE", "250", "18-Jan-2024", "1"),
        raw("NIFTY", "25-Jan-2024", "22000", "PE", "40", "17-Jan-2024", "1"),
        raw("NIFTY", "bad", "22000", "PE", "40", "18-Jan-2024", "1"),
        raw("NIFTY", "25-Jan-2024", "0", "XX", "22100", "18-Jan-2024", "1"),
    ];
    let out = run(&rows, "NIFTY");
    assert_eq!(out.len(), 1);
    assert_eq!(out[0].close_price.as_ref().unwrap().as_str(), "150");
    assert_eq!(out[0].expiry_date, parse_date("25-Jan-2024").unwrap());
    assert_eq!(out[0].timestamp, parse_date("18-Jan-2024").unwrap());
}

#[test]
fn join_drops_futures_without_price() {
    let rows = vec![
        raw("NIFTY", "25-Jan-2024", "22000", "CE", "150", "18-Jan-2024", "1"),
        raw("NIFTY", "25-Jan-2024", "0", "XX", "n/a", "18-Jan-2024", "1"),
    ];
    assert!(run(&rows, "NIFTY").is_empty());
}

#[test]
fn join_fans_out_on_duplicate_futures() {
    let rows = vec![
        raw("NIFTY", "25-Jan-2024", "22000", "PE", "150", "18-Jan-2024", "1"),
        raw("NIFTY", "25-Jan-2024", "0", "XX", "22100", "18-Jan-2024", "1"),
        raw("NIFTY", "25-Jan-2024", "0", "XX", "22105", "18-Jan-2024", "1"),
    ];
    let out = run(&rows, "NIFTY");
    assert_eq!(out.len(), 2);
    assert_eq!(out[0].future_price.as_str(), "22100");
    assert_eq!(out[1].future_price.as_str(), "22105");
    assert!(out.iter().all(|r| r.option_type == OptionClass::Put));
}

#[test]
fn option_type_encoding() {
    assert_eq!(encode_option_type("CE"), OptionClass::Call);
    assert_eq!(encode_option_type("PE"), OptionClass::Put);
    assert_eq!(encode_option_type("ce"), OptionClass::Put);
    assert_eq!(encode_option_type("CE "), OptionClass::Put);
    assert_eq!(encode_option_type(""), OptionClass::Put);
    assert_eq!(OptionClass::Call.flag(), 0);
    assert_eq!(OptionClass::Put.flag(), 1);
}

#[test]
fn solve_inputs_need_every_value() {
    let rows = vec![
        raw("NIFTY", "25-Jan-2024", "", "CE", "150", "18-Jan-2024", "1"),
        raw("NIFTY", "25-Jan-2024", "22000", "CE", "-", "18-Jan-2024", "1"),
        raw("NIFTY", "25-Jan-2024", "22000", "PE", "12.5", "18-Jan-2024", "1"),
        raw("NIFTY", "25-Jan-2024", "0", "XX", "22100", "18-Jan-2024", "1"),
    ];
    let out = run(&rows, "NIFTY");
    assert_eq!(out.len(), 3);
    assert!(out[0].iv_inputs().is_none());
    assert!(out[1].iv_inputs().is_none());
    let inputs = out[2].iv_inputs().unwrap();
    assert_eq!(inputs.premium.as_str(), "12.5");
    assert_eq!(inputs.option_type.flag(), 1);
    assert_eq!(inputs.days_to_expiry, 7);
}

#[test]
fn target_symbol_defaults() {
    assert_eq!(Args { symbol: None }.target_symbol(), "NIFTY");
    assert_eq!(Args { symbol: Some("BANKNIFTY".to_string()) }.target_symbol(), "BANKNIFTY");
}

#[test]
fn text_equality() {
    assert!(text_eq("XX", "XX"));
    assert!(!text_eq("XX", "XY"));
    assert!(!text_eq("XX", "XXX"));
    assert!(text_eq("", ""));
}

#[test]
fn normalized_row_clone_keeps_fields() {
    let row: NormalizedRow =
        normalize_row(&raw("NIFTY", "25-Jan-2024", "22000", "CE", "150", "18-Jan-2024", "1"));
    let copy = row.clone();
    assert_eq!(copy.symbol, row.symbol);
    assert_eq!(copy.days_to_expiry, row.days_to_expiry);
    assert_eq!(copy.close_price.unwrap().as_str(), "150");
}
