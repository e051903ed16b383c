use config_service::text::{inner_bounds_of, split_at_commas, split_keys, trim};

#[test]
fn inner_bounds_skip_the_flags_at_both_ends() {
    assert_eq!(inner_bounds_of(&vec![true, true, false, true, false, true]), (2, 5));
}

#[test]
fn inner_bounds_of_no_flags_set() {
    assert_eq!(inner_bounds_of(&vec![false, false, false]), (0, 3));
}

#[test]
fn inner_bounds_of_all_flags_set_are_at_the_end() {
    assert_eq!(inner_bounds_of(&vec![true, true, true]), (3, 3));
}

#[test]
fn inner_bounds_of_nothing() {
    assert_eq!(inner_bounds_of(&Vec::new()), (0, 0));
}

#[test]
fn inner_bounds_of_one_flag() {
    assert_eq!(inner_bounds_of(&vec![false]), (0, 1));
    assert_eq!(inner_bounds_of(&vec![true]), (1, 1));
}

#[test]
fn trim_removes_white_space_at_the_two_ends() {
    assert_eq!(trim("  a b \t\n"), "a b");
    assert_eq!(trim("a"), "a");
    assert_eq!(trim(""), "");
    assert_eq!(trim(" \r\n "), "");
}

#[test]
fn trim_agrees_with_the_trim_of_str() {
    for text in ["\u{3000}k1,k2\u{a0}", " é ", "\u{2028}x\u{85}", "\u{200b}zero width\u{200b}", "_ _"]
    {
        assert_eq!(trim(text), text.trim());
    }
}

#[test]
fn split_at_commas_cuts_at_every_comma() {
    assert_eq!(split_at_commas("a,b,c"), vec!["a", "b", "c"]);
    assert_eq!(split_at_commas(" a , b "), vec![" a ", " b "]);
}

#[test]
fn split_at_commas_keeps_empty_pieces() {
    assert_eq!(split_at_commas(""), vec![""]);
    assert_eq!(split_at_commas(","), vec!["", ""]);
    assert_eq!(split_at_commas("a,,b,"), vec!["a", "", "b", ""]);
}

#[test]
fn split_at_commas_joins_back() {
    for text in ["", ",", "a", "a,b", ",a,,b,", "né,ü,漢字"] {
        let pieces = split_at_commas(text);
        assert!(pieces.iter().all(|p| !p.contains(',')));
        assert_eq!(pieces.join(","), text);
    }
}

#[test]
fn split_keys_cuts_at_commas() {
    assert_eq!(split_keys("a,b,c"), vec!["a", "b", "c"]);
}

#[test]
fn split_keys_of_one_name() {
    assert_eq!(split_keys("name"), vec!["name"]);
}

#[test]
fn split_keys_of_empty_text_is_one_empty_name() {
    assert_eq!(split_keys(""), vec![""]);
}

#[test]
fn split_keys_of_white_space_is_one_empty_name() {
    assert_eq!(split_keys(" \t\n "), vec![""]);
}

#[test]
fn split_keys_trims_the_two_ends_only() {
    assert_eq!(split_keys("  a, b ,c \n"), vec!["a", " b ", "c"]);
}

#[test]
fn split_keys_keeps_empty_pieces() {
    assert_eq!(split_keys("a,,b,"), vec!["a", "", "b", ""]);
    assert_eq!(split_keys(","), vec!["", ""]);
}

#[test]
fn split_keys_agrees_with_trim_and_split() {
    for keys in ["x,missing", " x , y ", "\u{3000}k1,k2\u{a0}", "é,ü,漢字", ",,", "no comma", "\r\n"] {
        let expected: Vec<String> = keys.trim().split(",").map(|k| k.to_string()).collect();
        assert_eq!(split_keys(keys), expected);
    }
}

#[test]
fn split_keys_counts_characters_not_bytes() {
    assert_eq!(split_keys(" ключ,值 "), vec!["ключ", "值"]);
}
