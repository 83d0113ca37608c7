//! The kinds of argument that a command line can be described with.
use vstd::prelude::*;
use crate::bounded::{syntax_buffer_bytes, syntax_buffer_extend};
use crate::text::string_push;
use crate::env::{
    fitting, is_identifier_byte, lemma_build_failure_concat, lemma_build_failure_single,
    lemma_fitting_concat, lemma_fitting_single, lemma_names_valid_concat, names_valid,
    valid_identifier, Arg, ArgValue, SyntaxError, SyntaxString, SYNTAX_CAPACITY,
};
use vstd::seq_lib::lemma_flatten_concat;

verus! {

/// The character that a byte of text stands for: the code point of the same number.
pub open spec fn byte_char(b: u8) -> char {
    b as char
}

/// A switch, `name/S`: true when the word given for it is not zero.
pub struct Switch(pub &'static [u8]);

impl Arg for Switch {
    type Result = bool;

    open spec fn valid_arg(&self) -> bool {
        valid_identifier(self.0@)
    }

    open spec fn arg_syntax(&self) -> Seq<u8> {
        self.0@ + seq![47u8, 83u8]
    }

    open spec fn syntax_pieces(&self) -> Seq<Seq<u8>> {
        seq![self.0@, seq![47u8, 83u8]]
    }

    open spec fn name_pieces(&self) -> Seq<bool> {
        seq![true, false]
    }

    proof fn lemma_syntax_pieces(&self) {
        lemma_flatten_concat(seq![self.0@], seq![seq![47u8, 83u8]]);
        assert(seq![self.0@] + seq![seq![47u8, 83u8]] =~= self.syntax_pieces());
        lemma_fitting_single(0, self.0@);
        lemma_fitting_single(0, seq![47u8, 83u8]);
        assert(self.syntax_pieces()[0] == self.0@);
    }

    open spec fn takes_text(&self) -> bool {
        false
    }

    open spec fn reads_value(&self, value: ArgValue, result: bool) -> bool {
        value matches ArgValue::Word(w) && result == (w != 0)
    }

    fn add_to_syntax(&self, syntax: &mut SyntaxString) -> (r: Result<usize, ()>) {
        let ghost before = syntax_buffer_bytes(*syntax);
        let ghost n = before.len();
        let ghost suffix_piece = seq![47u8, 83u8];
        proof {
            self.lemma_syntax_pieces();
            assert(self.syntax_pieces() == seq![self.0@] + seq![suffix_piece]);
            lemma_fitting_concat(n, seq![self.0@], seq![suffix_piece]);
            lemma_fitting_single(n, self.0@);
            lemma_fitting_single(n + self.0@.len(), suffix_piece);
        }
        let r1 = add_identifier(syntax, self.0);
        if r1.is_err() {
            return Err(());
        }
        let suffix: [u8; 2] = [47u8, 83u8];
        assert(suffix@ == suffix_piece);
        let r2 = syntax_buffer_extend(syntax, suffix.as_slice());
        if r2.is_err() {
            assert(before + self.0@ + Seq::<u8>::empty() =~= before + self.0@);
            return Err(());
        }
        assert(before + self.0@ + suffix_piece =~= before + (self.0@ + suffix_piece));
        Ok(1)
    }

    fn read_result(&self, value: &ArgValue) -> (r: bool) {
        match value {
            ArgValue::Word(w) => *w != 0,
            ArgValue::Text(_) => false,
        }
    }

    fn check_syntax(&self, held: usize) -> (r: Result<usize, SyntaxError>) {
        let ghost suffix_piece = seq![47u8, 83u8];
        proof {
            self.lemma_syntax_pieces();
            assert(self.syntax_pieces() == seq![self.0@] + seq![suffix_piece]);
            assert(self.name_pieces() == seq![true] + seq![false]);
            lemma_build_failure_concat(
                held as nat,
                seq![self.0@],
                seq![true],
                seq![suffix_piece],
                seq![false],
            );
            lemma_build_failure_single(held as nat, self.0@, true);
            lemma_build_failure_single((held + self.0@.len()) as nat, suffix_piece, false);
        }
        if !identifier_is_valid(self.0) {
            return Err(SyntaxError::InvalidIdentifier);
        }
        if SYNTAX_CAPACITY - held < self.0.len() {
            return Err(SyntaxError::Overflow);
        }
        let held1 = held + self.0.len();
        if SYNTAX_CAPACITY - held1 < 2 {
            return Err(SyntaxError::Overflow);
        }
        Ok(held1 + 2)
    }

    fn wants_text(&self) -> (b: bool) {
        false
    }
}

/// A string argument: the text its word points at, each byte read as one character.
pub struct String;

impl Arg for String {
    type Result = std::string::String;

    open spec fn valid_arg(&self) -> bool {
        true
    }

    open spec fn arg_syntax(&self) -> Seq<u8> {
        Seq::empty()
    }

    open spec fn syntax_pieces(&self) -> Seq<Seq<u8>> {
        Seq::empty()
    }

    open spec fn name_pieces(&self) -> Seq<bool> {
        Seq::empty()
    }

    proof fn lemma_syntax_pieces(&self) {
    }

    open spec fn takes_text(&self) -> bool {
        true
    }

    open spec fn reads_value(&self, value: ArgValue, result: std::string::String) -> bool {
        value matches ArgValue::Text(t) && result@ == t@.map_values(|b: u8| byte_char(b))
    }

    fn add_to_syntax(&self, syntax: &mut SyntaxString) -> (r: Result<usize, ()>) {
        assert(syntax_buffer_bytes(*syntax) + Seq::<u8>::empty() =~= syntax_buffer_bytes(*syntax));
        Ok(1)
    }

    fn read_result(&self, value: &ArgValue) -> (r: std::string::String)
        ensures
            value matches ArgValue::Text(t) ==> r@.len() == t@.len() && forall|i: int|
                0 <= i < t@.len() ==> #[trigger] (r@[i] as u32) == t@[i] as u32,
    {
        let mut result = std::string::String::new();
        match value {
            ArgValue::Text(text) => {
                let n = text.len();
                for i in 0..n
                    invariant
                        n == text@.len(),
                        result@ == text@.take(i as int).map_values(|b: u8| byte_char(b)),
                {
                    string_push(&mut result, text[i] as char);
                    assert(text@.take(i + 1) == text@.take(i as int).push(text@[i as int]));
                }
                assert(text@.take(n as int) == text@);
                proof {
                    lemma_string_reads_codes(*self, *value, result);
                }
            },
            ArgValue::Word(_) => {},
        }
        result
    }

    fn check_syntax(&self, held: usize) -> (r: Result<usize, SyntaxError>) {
        Ok(held)
    }

    fn wants_text(&self) -> (b: bool) {
        true
    }
}

/// A string argument reads its text byte for byte: the string has one character per
/// byte, and each character's code point is its byte.
pub proof fn lemma_string_reads_codes(arg: String, value: ArgValue, result: std::string::String)
    requires
        arg.reads_value(value, result),
    ensures
        value matches ArgValue::Text(t) && result@.len() == t@.len() && forall|i: int|
            0 <= i < t@.len() ==> #[trigger] (result@[i] as u32) == t@[i] as u32,
{
    let t = value->Text_0;
    assert forall|i: int| 0 <= i < t@.len() implies #[trigger] (result@[i] as u32) == t@[i]
        as u32 by {
        let b = t@[i];
        assert(result@[i] == byte_char(b));
        assert((b as char) as u32 == b as u32);
    }
}

/// An argument with a name: the name followed by the inner argument's syntax.
pub struct Named<'a, T: Arg>(pub &'a [u8], pub T);

impl<'a, T: Arg> Arg for Named<'a, T> {
    type Result = T::Result;

    open spec fn valid_arg(&self) -> bool {
        valid_identifier(self.0@) && self.1.valid_arg()
    }

    open spec fn arg_syntax(&self) -> Seq<u8> {
        self.0@ + self.1.arg_syntax()
    }

    open spec fn syntax_pieces(&self) -> Seq<Seq<u8>> {
        seq![self.0@] + self.1.syntax_pieces()
    }

    open spec fn name_pieces(&self) -> Seq<bool> {
        seq![true] + self.1.name_pieces()
    }

    proof fn lemma_syntax_pieces(&self) {
        self.1.lemma_syntax_pieces();
        lemma_flatten_concat(seq![self.0@], self.1.syntax_pieces());
        lemma_fitting_single(0, self.0@);
        lemma_names_valid_concat(seq![self.0@], seq![true], self.1.syntax_pieces(), self.1.name_pieces());
        assert(names_valid(seq![self.0@], seq![true]) == valid_identifier(self.0@)) by {
            assert(seq![self.0@][0] == self.0@);
        }
    }

    open spec fn takes_text(&self) -> bool {
        self.1.takes_text()
    }

    open spec fn reads_value(&self, value: ArgValue, result: T::Result) -> bool {
        self.1.reads_value(value, result)
    }

    fn add_to_syntax(&self, syntax: &mut SyntaxString) -> (r: Result<usize, ()>) {
        let ghost before = syntax_buffer_bytes(*syntax);
        let ghost n = before.len();
        proof {
            self.lemma_syntax_pieces();
            self.1.lemma_syntax_pieces();
            lemma_fitting_concat(n, seq![self.0@], self.1.syntax_pieces());
            lemma_fitting_single(n, self.0@);
        }
        let r1 = add_identifier(syntax, self.0);
        if r1.is_err() {
            assert(before + Seq::<u8>::empty() =~= before);
            return Err(());
        }
        let r = self.1.add_to_syntax(syntax);
        assert(before + self.0@ + fitting(n + self.0@.len(), self.1.syntax_pieces()) =~= before
            + (self.0@ + fitting(n + self.0@.len(), self.1.syntax_pieces())));
        r
    }

    fn read_result(&self, value: &ArgValue) -> (r: T::Result) {
        self.1.read_result(value)
    }

    fn check_syntax(&self, held: usize) -> (r: Result<usize, SyntaxError>) {
        proof {
            self.lemma_syntax_pieces();
            self.1.lemma_syntax_pieces();
            lemma_build_failure_concat(
                held as nat,
                seq![self.0@],
                seq![true],
                self.1.syntax_pieces(),
                self.1.name_pieces(),
            );
            lemma_build_failure_single(held as nat, self.0@, true);
        }
        if !identifier_is_valid(self.0) {
            return Err(SyntaxError::InvalidIdentifier);
        }
        if SYNTAX_CAPACITY - held < self.0.len() {
            return Err(SyntaxError::Overflow);
        }
        self.1.check_syntax(held + self.0.len())
    }

    fn wants_text(&self) -> (b: bool) {
        self.1.wants_text()
    }
}

/// Whether every byte of `id` is a letter or an underscore.
fn identifier_is_valid(id: &[u8]) -> (b: bool)
    ensures
        b == valid_identifier(id@),
{
    let n = id.len();
    for i in 0..n
        invariant
            n == id@.len(),
            forall|j: int| 0 <= j < i ==> is_identifier_byte(#[trigger] id@[j]),
    {
        let c = id[i];
        let is_allowed = (c >= 65 && c <= 90) || (c >= 97 && c <= 122) || c == 95;
        if !is_allowed {
            return false;
        }
    }
    true
}

/// Appends an argument's name to the syntax string.
fn add_identifier(syntax: &mut SyntaxString, id: &[u8]) -> (r: Result<(), ()>)
    requires
        valid_identifier(id@),
        syntax_buffer_bytes(*old(syntax)).len() <= SYNTAX_CAPACITY,
    ensures
        syntax_buffer_bytes(*old(syntax)).len() + id@.len() <= SYNTAX_CAPACITY ==> r is Ok
            && syntax_buffer_bytes(*final(syntax)) == syntax_buffer_bytes(*old(syntax)) + id@,
        syntax_buffer_bytes(*old(syntax)).len() + id@.len() > SYNTAX_CAPACITY ==> r is Err
            && syntax_buffer_bytes(*final(syntax)) == syntax_buffer_bytes(*old(syntax)),
{
    syntax_buffer_extend(syntax, id)
}

} // verus!
