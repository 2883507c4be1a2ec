//! The names of the files that hold the parts of a language.
//!
//! The first part of a language is named by the language alone. Every later
//! part also has its number in its name, counted from one: the part that
//! follows the first is part 2.

use crate::text::push_char;
use vstd::prelude::*;

verus! {

/// The character for the digit `d`.
pub open spec fn digit_char(d: nat) -> char {
    if d == 0 {
        '0'
    } else if d == 1 {
        '1'
    } else if d == 2 {
        '2'
    } else if d == 3 {
        '3'
    } else if d == 4 {
        '4'
    } else if d == 5 {
        '5'
    } else if d == 6 {
        '6'
    } else if d == 7 {
        '7'
    } else if d == 8 {
        '8'
    } else {
        '9'
    }
}

/// `n` in decimal digits, without leading zeros.
pub open spec fn decimal_of(n: nat) -> Seq<char>
    decreases n,
{
    if n < 10 {
        seq![digit_char(n)]
    } else {
        decimal_of(n / 10).push(digit_char(n % 10))
    }
}

/// The name of the file that holds the content of part `index` of `lang`.
pub open spec fn part_name(lang: Seq<char>, index: nat) -> Seq<char> {
    if index == 0 {
        lang + ".txt"@
    } else {
        lang + "_part_"@ + decimal_of(index + 1) + ".txt"@
    }
}

/// The name of the file that holds the metadata of part `index` of `lang`.
pub open spec fn meta_name(lang: Seq<char>, index: nat) -> Seq<char> {
    if index == 0 {
        lang + "_meta.jsonl"@
    } else {
        lang + "_meta_part_"@ + decimal_of(index + 1) + ".jsonl"@
    }
}

fn digit(d: u128) -> (c: char)
    requires
        d < 10,
    ensures
        c == digit_char(d as nat),
{
    if d == 0 {
        '0'
    } else if d == 1 {
        '1'
    } else if d == 2 {
        '2'
    } else if d == 3 {
        '3'
    } else if d == 4 {
        '4'
    } else if d == 5 {
        '5'
    } else if d == 6 {
        '6'
    } else if d == 7 {
        '7'
    } else if d == 8 {
        '8'
    } else {
        '9'
    }
}

/// `n` in decimal digits, without leading zeros.
pub fn decimal(n: u128) -> (text: String)
    ensures
        text@ == decimal_of(n as nat),
    decreases n,
{
    if n < 10 {
        let mut text = String::new();
        push_char(&mut text, digit(n));
        text
    } else {
        let mut text = decimal(n / 10);
        push_char(&mut text, digit(n % 10));
        text
    }
}

/// The name of the file that holds the content of part `index` of `lang`.
pub fn part_file_name(lang: &str, index: usize) -> (name: String)
    ensures
        name@ == part_name(lang@, index as nat),
{
    let mut name = lang.to_owned();
    if index == 0 {
        name.append(".txt");
    } else {
        name.append("_part_");
        name.append(decimal(index as u128 + 1).as_str());
        name.append(".txt");
    }
    name
}

/// The name of the file that holds the metadata of part `index` of `lang`.
pub fn meta_file_name(lang: &str, index: usize) -> (name: String)
    ensures
        name@ == meta_name(lang@, index as nat),
{
    let mut name = lang.to_owned();
    if index == 0 {
        name.append("_meta.jsonl");
    } else {
        name.append("_meta_part_");
        name.append(decimal(index as u128 + 1).as_str());
        name.append(".jsonl");
    }
    name
}

} // verus!
