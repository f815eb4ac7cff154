use vegcode::text::{
    join, set_char_for_string, string_chars, string_from_chars, string_from_chars_reversed,
};

#[test]
fn characters_of_a_string() {
    assert_eq!(string_chars("a-é"), vec!['a', '-', 'é']);
    assert_eq!(string_chars(""), Vec::<char>::new());
}

#[test]
fn string_of_characters() {
    let v = vec!['0', 'H', 'g', '7', 'Y'];
    assert_eq!(string_from_chars(&v, 0, 5), "0Hg7Y");
    assert_eq!(string_from_chars(&v, 1, 3), "Hg");
    assert_eq!(string_from_chars(&v, 2, 2), "");
    assert_eq!(string_from_chars_reversed(&v), "Y7gH0");
}

#[test]
fn replacing_a_character() {
    let mut s = String::from("abc");
    set_char_for_string(&mut s, 1, 'X');
    assert_eq!(s, "aXc");
    set_char_for_string(&mut s, 0, 'é');
    assert_eq!(s, "éXc");
    set_char_for_string(&mut s, 2, '.');
    assert_eq!(s, "éX.");
}

#[test]
fn joining_two_strings() {
    assert_eq!(join("00", "54NL"), "0054NL");
    assert_eq!(join("", ""), "");
}
