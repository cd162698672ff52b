use rebalancer::{parse_csv, stocks_from_rows, CsvError};

#[test]
fn one_data_row_becomes_one_stock() {
    let text = "Company Name,Symbol,Zacks Rank,Industry Rank,Momentum\n\
                Acme Corp,ACME,1,12,A\n";
    let buys = parse_csv(text).unwrap();
    assert_eq!(buys.list.len(), 1);
    let stock = &buys.list[0];
    assert_eq!(stock.company_name, "Acme Corp");
    assert_eq!(stock.symbol, "ACME");
    assert_eq!(stock.zacks_rank, "1");
    assert_eq!(stock.industry_rank, "12");
    assert_eq!(stock.momentum, "A");
}

#[test]
fn rows_keep_file_order() {
    let text = "Company Name,Symbol,Zacks Rank,Industry Rank,Momentum\n\
                First Co,AAA,1,3,B\n\
                Second Co,BBB,1,7,A\n\
                Third Co,CCC,2,1,A\n";
    let buys = parse_csv(text).unwrap();
    let symbols: Vec<&str> = buys.list.iter().map(|s| s.symbol.as_str()).collect();
    assert_eq!(symbols, vec!["AAA", "BBB", "CCC"]);
}

#[test]
fn header_only_text_yields_an_empty_list() {
    let text = "Company Name,Symbol,Zacks Rank,Industry Rank,Momentum\n";
    let buys = parse_csv(text).unwrap();
    assert!(buys.list.is_empty());
}

#[test]
fn rows_with_too_few_fields_are_rejected() {
    // Header and rows agree on three fields, so the reader accepts them,
    // but three fields cannot fill a stock.
    let text = "Company Name,Symbol,Zacks Rank\nAcme Corp,ACME,1\n";
    assert_eq!(parse_csv(text), Err(CsvError::ShortRow));
}

#[test]
fn ragged_rows_are_a_syntax_error() {
    // The second data row has fewer fields than the header: the reader
    // itself refuses the record.
    let text = "Company Name,Symbol,Zacks Rank,Industry Rank,Momentum\n\
                Acme Corp,ACME,1,12,A\n\
                Broken Co,BRK\n";
    assert_eq!(parse_csv(text), Err(CsvError::Syntax));
}

#[test]
fn stocks_from_rows_takes_the_first_five_fields() {
    let rows = vec![vec![
        "Acme Corp".to_string(),
        "ACME".to_string(),
        "1".to_string(),
        "12".to_string(),
        "A".to_string(),
        "surplus".to_string(),
    ]];
    let buys = stocks_from_rows(rows).unwrap();
    assert_eq!(buys.list.len(), 1);
    assert_eq!(buys.list[0].company_name, "Acme Corp");
    assert_eq!(buys.list[0].momentum, "A");
}

#[test]
fn stocks_from_rows_rejects_any_short_row() {
    let rows = vec![
        vec![
            "Acme Corp".to_string(),
            "ACME".to_string(),
            "1".to_string(),
            "12".to_string(),
            "A".to_string(),
        ],
        vec!["Short Co".to_string(), "SHRT".to_string()],
    ];
    assert_eq!(stocks_from_rows(rows), Err(CsvError::ShortRow));
}
