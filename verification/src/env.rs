//! Command-line arguments: the syntax string that describes them to OS_ReadArgs, and
//! the typed values read back from what OS_ReadArgs decoded.
use vstd::prelude::*;
use vstd::seq_lib::lemma_flatten_concat;
use crate::bounded::{
    syntax_buffer_bytes, syntax_buffer_new, syntax_buffer_push,
};

pub mod arg;

verus! {

/// The buffer that the syntax string is built in: 256 bytes at most.
pub type SyntaxString = heapless::Vec<u8, 256>;

/// The capacity of a syntax string.
pub const SYNTAX_CAPACITY: usize = 256;

/// What OS_ReadArgs put in one output slot, as the caller hands it on: a plain word,
/// or, for an argument that takes text, the bytes of the string the word pointed to,
/// up to and without its terminating zero.
pub enum ArgValue {
    Word(u32),
    Text(Vec<u8>),
}

/// Whether `value` is of the form that a slot expects (`text`: a string argument).
pub open spec fn value_fits(value: ArgValue, text: bool) -> bool {
    if text {
        value is Text
    } else {
        value is Word
    }
}

/// Whether each value is of the form that its slot expects.
pub open spec fn values_fit(values: Seq<ArgValue>, slots: Seq<bool>) -> bool {
    &&& values.len() == slots.len()
    &&& forall|i: int| 0 <= i < values.len() ==> value_fits(#[trigger] values[i], slots[i])
}

/// The bytes that appending `pieces` one after the other to a buffer holding `held`
/// bytes adds: each piece whole, up to the first that does not fit in the capacity.
pub open spec fn fitting(held: nat, pieces: Seq<Seq<u8>>) -> Seq<u8>
    decreases pieces.len(),
{
    if pieces.len() == 0 {
        Seq::empty()
    } else if held + pieces[0].len() <= SYNTAX_CAPACITY {
        pieces[0] + fitting(held + pieces[0].len(), pieces.drop_first())
    } else {
        Seq::empty()
    }
}

/// What appending `pieces` in turn to a syntax buffer holding `before` leaves in it
/// (`after`), and whether it succeeded: each piece is appended whole while it fits, the
/// first that does not fit stops it, and it succeeds exactly when all of them fit.
pub open spec fn appended(before: Seq<u8>, after: Seq<u8>, pieces: Seq<Seq<u8>>, ok: bool) -> bool {
    &&& after == before + fitting(before.len(), pieces)
    &&& ok == (before.len() + pieces.flatten().len() <= SYNTAX_CAPACITY)
}

/// When all the pieces fit, all of them are appended.
proof fn lemma_fitting_all(held: nat, pieces: Seq<Seq<u8>>)
    requires
        held + pieces.flatten().len() <= SYNTAX_CAPACITY,
    ensures
        fitting(held, pieces) == pieces.flatten(),
    decreases pieces.len(),
{
    if pieces.len() > 0 {
        lemma_fitting_all(held + pieces[0].len(), pieces.drop_first());
    }
}

/// Appending two lists of pieces in turn: all of the first and then what fits of the
/// second when the first fits whole, else what fits of the first.
pub(crate) proof fn lemma_fitting_concat(held: nat, p1: Seq<Seq<u8>>, p2: Seq<Seq<u8>>)
    ensures
        held + p1.flatten().len() <= SYNTAX_CAPACITY ==> fitting(held, p1 + p2) == p1.flatten()
            + fitting(held + p1.flatten().len(), p2),
        held + p1.flatten().len() > SYNTAX_CAPACITY ==> fitting(held, p1 + p2) == fitting(
            held,
            p1,
        ),
    decreases p1.len(),
{
    if p1.len() == 0 {
        assert(p1 + p2 =~= p2);
    } else {
        assert((p1 + p2)[0] == p1[0]);
        assert((p1 + p2).drop_first() =~= p1.drop_first() + p2);
        lemma_fitting_concat(held + p1[0].len(), p1.drop_first(), p2);
        if held + p1[0].len() <= SYNTAX_CAPACITY && held + p1.flatten().len()
            <= SYNTAX_CAPACITY {
            assert(p1[0] + (p1.drop_first().flatten() + fitting(
                held + p1.flatten().len(),
                p2,
            )) =~= p1.flatten() + fitting(held + p1.flatten().len(), p2));
        }
    }
}

/// Appending a single piece: the whole piece when it fits, nothing otherwise.
pub(crate) proof fn lemma_fitting_single(held: nat, piece: Seq<u8>)
    ensures
        seq![piece].flatten() == piece,
        fitting(held, seq![piece]) == (if held + piece.len() <= SYNTAX_CAPACITY {
            piece
        } else {
            Seq::<u8>::empty()
        }),
{
    reveal_with_fuel(Seq::flatten, 2);
    reveal_with_fuel(fitting, 2);
    assert(seq![piece].drop_first() =~= Seq::<Seq<u8>>::empty());
    assert(piece + Seq::<u8>::empty() =~= piece);
}

/// A byte that may stand in an argument's name: an ASCII letter or an underscore.
pub open spec fn is_identifier_byte(c: u8) -> bool {
    (65 <= c <= 90) || (97 <= c <= 122) || c == 95
}

/// A name made of letters and underscores only.
pub open spec fn valid_identifier(id: Seq<u8>) -> bool {
    forall|i: int| 0 <= i < id.len() ==> is_identifier_byte(#[trigger] id[i])
}

/// Whether every piece marked as a name is an identifier.
pub open spec fn names_valid(pieces: Seq<Seq<u8>>, names: Seq<bool>) -> bool {
    forall|i: int| 0 <= i < pieces.len() && names[i] ==> valid_identifier(#[trigger] pieces[i])
}

/// What stops the building of a syntax string that holds `held` bytes from pieces appended
/// in turn (`names` marks the pieces that are names): a name that is not an identifier is
/// found as its piece is reached, before it is appended; a piece that does not fit stops
/// it too. `None` when every piece is appended.
pub open spec fn build_failure(held: nat, pieces: Seq<Seq<u8>>, names: Seq<bool>) -> Option<
    SyntaxError,
>
    decreases pieces.len(),
{
    if pieces.len() == 0 {
        None
    } else if names[0] && !valid_identifier(pieces[0]) {
        Some(SyntaxError::InvalidIdentifier)
    } else if held + pieces[0].len() > SYNTAX_CAPACITY {
        Some(SyntaxError::Overflow)
    } else {
        build_failure(held + pieces[0].len(), pieces.drop_first(), names.drop_first())
    }
}

/// Building succeeds exactly when every name is an identifier and all the pieces fit.
pub(crate) proof fn lemma_build_failure_none(held: nat, pieces: Seq<Seq<u8>>, names: Seq<bool>)
    requires
        names.len() == pieces.len(),
        held <= SYNTAX_CAPACITY,
    ensures
        build_failure(held, pieces, names) is None <==> names_valid(pieces, names) && held
            + pieces.flatten().len() <= SYNTAX_CAPACITY,
    decreases pieces.len(),
{
    if pieces.len() > 0 {
        let (p, n) = (pieces.drop_first(), names.drop_first());
        if held + pieces[0].len() <= SYNTAX_CAPACITY {
            lemma_build_failure_none(held + pieces[0].len(), p, n);
        }
        assert(names_valid(pieces, names) ==> names_valid(p, n)) by {
            if names_valid(pieces, names) {
                assert forall|i: int| 0 <= i < p.len() && n[i] implies valid_identifier(
                    #[trigger] p[i],
                ) by {
                    assert(p[i] == pieces[i + 1]);
                }
            }
        }
        assert(names_valid(pieces, names) ==> (names[0] ==> valid_identifier(pieces[0])));
        assert((names_valid(p, n) && (names[0] ==> valid_identifier(pieces[0])))
            ==> names_valid(pieces, names)) by {
            if names_valid(p, n) && (names[0] ==> valid_identifier(pieces[0])) {
                assert forall|i: int| 0 <= i < pieces.len() && names[i] implies valid_identifier(
                    #[trigger] pieces[i],
                ) by {
                    if i > 0 {
                        assert(pieces[i] == p[i - 1]);
                    }
                }
            }
        }
    }
}

/// Building from two lists of pieces in turn: what stops the first, or else what stops
/// the second after all of the first.
pub(crate) proof fn lemma_build_failure_concat(
    held: nat,
    p1: Seq<Seq<u8>>,
    n1: Seq<bool>,
    p2: Seq<Seq<u8>>,
    n2: Seq<bool>,
)
    requires
        n1.len() == p1.len(),
    ensures
        build_failure(held, p1 + p2, n1 + n2) == (if build_failure(held, p1, n1) is Some {
            build_failure(held, p1, n1)
        } else {
            build_failure(held + p1.flatten().len(), p2, n2)
        }),
    decreases p1.len(),
{
    if p1.len() == 0 {
        assert(p1 + p2 =~= p2);
        assert(n1 + n2 =~= n2);
    } else {
        assert((p1 + p2)[0] == p1[0]);
        assert((n1 + n2)[0] == n1[0]);
        assert((p1 + p2).drop_first() =~= p1.drop_first() + p2);
        assert((n1 + n2).drop_first() =~= n1.drop_first() + n2);
        lemma_build_failure_concat(held + p1[0].len(), p1.drop_first(), n1.drop_first(), p2, n2);
    }
}

/// Building from a single piece.
pub(crate) proof fn lemma_build_failure_single(held: nat, piece: Seq<u8>, name: bool)
    ensures
        build_failure(held, seq![piece], seq![name]) == (if name && !valid_identifier(piece) {
            Some(SyntaxError::InvalidIdentifier)
        } else if held + piece.len() > SYNTAX_CAPACITY {
            Some(SyntaxError::Overflow)
        } else {
            None
        }),
        seq![piece].flatten() == piece,
{
    reveal_with_fuel(build_failure, 2);
    lemma_fitting_single(held, piece);
}

/// The pieces marked as names are identifiers in two lists joined exactly when they are in each.
pub(crate) proof fn lemma_names_valid_concat(
    p1: Seq<Seq<u8>>,
    n1: Seq<bool>,
    p2: Seq<Seq<u8>>,
    n2: Seq<bool>,
)
    requires
        n1.len() == p1.len(),
        n2.len() == p2.len(),
    ensures
        names_valid(p1 + p2, n1 + n2) == (names_valid(p1, n1) && names_valid(p2, n2)),
{
    let (p, n) = (p1 + p2, n1 + n2);
    if names_valid(p, n) {
        assert forall|i: int| 0 <= i < p1.len() && n1[i] implies valid_identifier(
            #[trigger] p1[i],
        ) by {
            assert(p[i] == p1[i] && n[i] == n1[i]);
        }
        assert forall|i: int| 0 <= i < p2.len() && n2[i] implies valid_identifier(
            #[trigger] p2[i],
        ) by {
            assert(p[p1.len() + i] == p2[i] && n[p1.len() + i] == n2[i]);
        }
    }
    if names_valid(p1, n1) && names_valid(p2, n2) {
        assert forall|i: int| 0 <= i < p.len() && n[i] implies valid_identifier(#[trigger] p[i]) by {
            if i < p1.len() {
                assert(p[i] == p1[i] && n[i] == n1[i]);
            } else {
                assert(p[i] == p2[i - p1.len()] && n[i] == n2[i - p1.len()]);
            }
        }
    }
}

/// One argument of a command line.
pub trait Arg {
    type Result;

    /// Whether the names in the argument are identifiers.
    spec fn valid_arg(&self) -> bool;

    /// The bytes that the argument adds to the syntax string.
    spec fn arg_syntax(&self) -> Seq<u8>;

    /// The argument's syntax as the pieces it is appended in, each whole or not at all.
    spec fn syntax_pieces(&self) -> Seq<Seq<u8>>;

    /// For each piece in turn, whether it is a name.
    spec fn name_pieces(&self) -> Seq<bool>;

    /// The pieces make up the syntax, and the names are valid exactly when the pieces
    /// marked as names are identifiers.
    proof fn lemma_syntax_pieces(&self)
        ensures
            self.syntax_pieces().flatten() == self.arg_syntax(),
            self.name_pieces().len() == self.syntax_pieces().len(),
            self.valid_arg() == names_valid(self.syntax_pieces(), self.name_pieces()),
    ;

    /// Whether the argument's output slot points at text.
    spec fn takes_text(&self) -> bool;

    /// Whether `result` is what the argument reads from `value`.
    spec fn reads_value(&self, value: ArgValue, result: Self::Result) -> bool;

    /// Appends the argument's syntax; on success the argument takes one slot.
    fn add_to_syntax(&self, syntax: &mut SyntaxString) -> (r: Result<usize, ()>)
        requires
            self.valid_arg(),
            syntax_buffer_bytes(*old(syntax)).len() <= SYNTAX_CAPACITY,
        ensures
            appended(
                syntax_buffer_bytes(*old(syntax)),
                syntax_buffer_bytes(*final(syntax)),
                self.syntax_pieces(),
                r is Ok,
            ),
            r matches Ok(n) ==> n == 1,
    ;

    /// Reads the argument's typed value from its slot.
    fn read_result(&self, value: &ArgValue) -> (r: Self::Result)
        requires
            value_fits(*value, self.takes_text()),
        ensures
            self.reads_value(*value, r),
    ;

    /// What stops the argument's syntax from being appended to a syntax string holding
    /// `held` bytes, found in the order in which the pieces are appended; else the
    /// number of bytes held afterwards.
    fn check_syntax(&self, held: usize) -> (r: Result<usize, SyntaxError>)
        requires
            held <= SYNTAX_CAPACITY,
        ensures
            build_failure(held as nat, self.syntax_pieces(), self.name_pieces()) is None ==> (r matches Ok(
                m,
            ) && m == held + self.arg_syntax().len()),
            build_failure(held as nat, self.syntax_pieces(), self.name_pieces()) matches Some(e)
                ==> (r matches Err(f) && f == e),
    ;

    /// Whether the argument's output slot points at text.
    fn wants_text(&self) -> (b: bool)
        ensures
            b == self.takes_text(),
    ;
}

impl Arg for () {
    type Result = ();

    open spec fn valid_arg(&self) -> bool {
        true
    }

    open spec fn arg_syntax(&self) -> Seq<u8> {
        Seq::empty()
    }

    open spec fn syntax_pieces(&self) -> Seq<Seq<u8>> {
        Seq::empty()
    }

    open spec fn name_pieces(&self) -> Seq<bool> {
        Seq::empty()
    }

    proof fn lemma_syntax_pieces(&self) {
    }

    open spec fn takes_text(&self) -> bool {
        false
    }

    open spec fn reads_value(&self, value: ArgValue, result: ()) -> bool {
        true
    }

    fn add_to_syntax(&self, syntax: &mut SyntaxString) -> (r: Result<usize, ()>) {
        assert(syntax_buffer_bytes(*syntax) + Seq::<u8>::empty() =~= syntax_buffer_bytes(*syntax));
        Ok(1)
    }

    fn read_result(&self, value: &ArgValue) -> (r: ()) {
        ()
    }

    fn check_syntax(&self, held: usize) -> (r: Result<usize, SyntaxError>) {
        Ok(held)
    }

    fn wants_text(&self) -> (b: bool) {
        false
    }
}


/// A whole command line: one argument, or a pair of command lines, one after the other.
pub trait Args {
    type Result;

    /// Whether every name in the command line is an identifier.
    spec fn valid_args(&self) -> bool;

    /// The syntax string of the command line, its arguments separated by commas.
    spec fn args_syntax(&self) -> Seq<u8>;

    /// The syntax string as the pieces it is appended in, each whole or not at all.
    spec fn args_pieces(&self) -> Seq<Seq<u8>>;

    /// For each piece in turn, whether it is a name.
    spec fn args_names(&self) -> Seq<bool>;

    /// The number of arguments, each of which takes one output slot.
    spec fn arg_count(&self) -> nat;

    /// For each slot in turn, whether it points at text.
    spec fn text_slots(&self) -> Seq<bool>;

    /// Whether `result` is what the command line reads from the slots `values`.
    spec fn reads_values(&self, values: Seq<ArgValue>, result: Self::Result) -> bool;

    /// There is one slot per argument, and at most one argument more than syntax bytes;
    /// the pieces make up the syntax.
    proof fn lemma_counts(&self)
        ensures
            self.args_pieces().flatten() == self.args_syntax(),
            self.args_names().len() == self.args_pieces().len(),
            self.valid_args() == names_valid(self.args_pieces(), self.args_names()),
            self.text_slots().len() == self.arg_count(),
            1 <= self.arg_count() <= self.args_syntax().len() + 1,
    ;

    /// Appends the command line's syntax; on success, returns the number of arguments.
    fn add_to_syntax(&self, syntax: &mut SyntaxString) -> (r: Result<usize, ()>)
        requires
            self.valid_args(),
            syntax_buffer_bytes(*old(syntax)).len() <= SYNTAX_CAPACITY,
        ensures
            appended(
                syntax_buffer_bytes(*old(syntax)),
                syntax_buffer_bytes(*final(syntax)),
                self.args_pieces(),
                r is Ok,
            ),
            r matches Ok(n) ==> n == self.arg_count(),
    ;

    /// Reads the command line's values from the front of `values`, and returns them
    /// with the slots that are left.
    fn read_result<'a>(&self, values: &'a [ArgValue]) -> (r: (Self::Result, &'a [ArgValue]))
        requires
            self.arg_count() <= values@.len(),
            values_fit(values@.take(self.arg_count() as int), self.text_slots()),
        ensures
            self.reads_values(values@.take(self.arg_count() as int), r.0),
            r.1@ == values@.skip(self.arg_count() as int),
    ;

    /// What stops the command line's syntax from being appended to a syntax string
    /// holding `held` bytes, found in the order in which the pieces are appended; else
    /// the number of bytes held afterwards.
    fn check_syntax(&self, held: usize) -> (r: Result<usize, SyntaxError>)
        requires
            held <= SYNTAX_CAPACITY,
        ensures
            build_failure(held as nat, self.args_pieces(), self.args_names()) is None ==> (r matches Ok(
                m,
            ) && m == held + self.args_syntax().len()),
            build_failure(held as nat, self.args_pieces(), self.args_names()) matches Some(e)
                ==> (r matches Err(f) && f == e),
    ;

    /// Appends, for each slot in turn, whether it points at text.
    fn add_text_slots(&self, slots: &mut Vec<bool>)
        ensures
            final(slots)@ == old(slots)@ + self.text_slots(),
    ;
}

impl<T: Arg> Args for T {
    type Result = T::Result;

    open spec fn valid_args(&self) -> bool {
        self.valid_arg()
    }

    open spec fn args_syntax(&self) -> Seq<u8> {
        self.arg_syntax()
    }

    open spec fn args_pieces(&self) -> Seq<Seq<u8>> {
        self.syntax_pieces()
    }

    open spec fn args_names(&self) -> Seq<bool> {
        self.name_pieces()
    }

    open spec fn arg_count(&self) -> nat {
        1
    }

    open spec fn text_slots(&self) -> Seq<bool> {
        seq![self.takes_text()]
    }

    open spec fn reads_values(&self, values: Seq<ArgValue>, result: T::Result) -> bool {
        values.len() == 1 && self.reads_value(values[0], result)
    }

    proof fn lemma_counts(&self) {
        self.lemma_syntax_pieces();
    }

    fn add_to_syntax(&self, syntax: &mut SyntaxString) -> (r: Result<usize, ()>) {
        Arg::add_to_syntax(self, syntax)
    }

    fn read_result<'a>(&self, values: &'a [ArgValue]) -> (r: (T::Result, &'a [ArgValue])) {
        assert(value_fits(values@.take(1)[0], self.text_slots()[0]));
        let result = Arg::read_result(self, &values[0]);
        let rest = &values[1..values.len()];
        assert(rest@ =~= values@.skip(1));
        (result, rest)
    }

    fn check_syntax(&self, held: usize) -> (r: Result<usize, SyntaxError>) {
        Arg::check_syntax(self, held)
    }

    fn add_text_slots(&self, slots: &mut Vec<bool>) {
        let text = Arg::wants_text(self);
        slots.push(text);
        assert(old(slots)@.push(text) =~= old(slots)@ + self.text_slots());
    }
}

impl<T1: Args, T2: Args> Args for (T1, T2) {
    type Result = (T1::Result, T2::Result);

    open spec fn valid_args(&self) -> bool {
        self.0.valid_args() && self.1.valid_args()
    }

    open spec fn args_syntax(&self) -> Seq<u8> {
        self.0.args_syntax() + seq![44u8] + self.1.args_syntax()
    }

    open spec fn args_pieces(&self) -> Seq<Seq<u8>> {
        self.0.args_pieces() + seq![seq![44u8]] + self.1.args_pieces()
    }

    open spec fn args_names(&self) -> Seq<bool> {
        self.0.args_names() + seq![false] + self.1.args_names()
    }

    open spec fn arg_count(&self) -> nat {
        self.0.arg_count() + self.1.arg_count()
    }

    open spec fn text_slots(&self) -> Seq<bool> {
        self.0.text_slots() + self.1.text_slots()
    }

    open spec fn reads_values(&self, values: Seq<ArgValue>, result: Self::Result) -> bool {
        &&& values.len() == self.arg_count()
        &&& self.0.reads_values(values.take(self.0.arg_count() as int), result.0)
        &&& self.1.reads_values(values.skip(self.0.arg_count() as int), result.1)
    }

    proof fn lemma_counts(&self) {
        self.0.lemma_counts();
        self.1.lemma_counts();
        let (p1, p2) = (self.0.args_pieces(), self.1.args_pieces());
        lemma_flatten_concat(p1 + seq![seq![44u8]], p2);
        lemma_flatten_concat(p1, seq![seq![44u8]]);
        lemma_fitting_single(0, seq![44u8]);
        let (n1, n2) = (self.0.args_names(), self.1.args_names());
        lemma_names_valid_concat(p1, n1, seq![seq![44u8]], seq![false]);
        lemma_names_valid_concat(p1 + seq![seq![44u8]], n1 + seq![false], p2, n2);
    }

    fn add_to_syntax(&self, syntax: &mut SyntaxString) -> (r: Result<usize, ()>) {
        let ghost before = syntax_buffer_bytes(*syntax);
        let ghost n = before.len();
        let ghost (p1, p2) = (self.0.args_pieces(), self.1.args_pieces());
        let ghost comma = seq![seq![44u8]];
        proof {
            self.lemma_counts();
            assert(self.args_pieces() == p1 + (comma + p2));
            lemma_fitting_concat(n, p1, comma + p2);
            lemma_flatten_concat(p1, comma + p2);
            lemma_flatten_concat(comma, p2);
            lemma_fitting_single(0, seq![44u8]);
        }
        let r1 = self.0.add_to_syntax(syntax);
        let count1 = match r1 {
            Ok(n) => n,
            Err(e) => {
                return Err(e);
            },
        };
        let ghost n1 = n + p1.flatten().len();
        proof {
            lemma_fitting_all(n, p1);
            lemma_fitting_concat(n1, comma, p2);
            lemma_fitting_single(n1, seq![44u8]);
        }
        let r2 = syntax_buffer_push(syntax, 44u8);
        if r2.is_err() {
            return Err(());
        }
        let ghost mid = syntax_buffer_bytes(*syntax);
        let r3 = self.1.add_to_syntax(syntax);
        proof {
            assert(before + (p1.flatten() + (seq![44u8] + fitting(n1 + 1, p2))) =~= mid + fitting(
                n1 + 1,
                p2,
            ));
        }
        match r3 {
            Ok(count2) => Ok(count1 + count2),
            Err(e) => Err(e),
        }
    }

    fn read_result<'a>(&self, values: &'a [ArgValue]) -> (r: (Self::Result, &'a [ArgValue])) {
        let ghost c1 = self.0.arg_count() as int;
        let ghost c2 = self.1.arg_count() as int;
        let ghost all = values@;
        proof {
            self.0.lemma_counts();
            self.1.lemma_counts();
            let front = all.take(c1 + c2);
            assert(values_fit(all.take(c1), self.0.text_slots())) by {
                assert forall|i: int| 0 <= i < c1 implies value_fits(
                    #[trigger] all.take(c1)[i],
                    self.0.text_slots()[i],
                ) by {
                    assert(all.take(c1)[i] == front[i]);
                    assert(self.text_slots()[i] == self.0.text_slots()[i]);
                }
            }
        }
        let (res1, rest) = self.0.read_result(values);
        proof {
            let front = all.take(c1 + c2);
            assert(values_fit(rest@.take(c2), self.1.text_slots())) by {
                assert forall|i: int| 0 <= i < c2 implies value_fits(
                    #[trigger] rest@.take(c2)[i],
                    self.1.text_slots()[i],
                ) by {
                    assert(rest@.take(c2)[i] == front[c1 + i]);
                    assert(self.text_slots()[c1 + i] == self.1.text_slots()[i]);
                }
            }
        }
        let (res2, rest2) = self.1.read_result(rest);
        proof {
            let front = all.take(c1 + c2);
            assert(front.take(c1) =~= all.take(c1));
            assert(front.skip(c1) =~= rest@.take(c2));
            assert(rest2@ =~= all.skip(c1 + c2));
        }
        ((res1, res2), rest2)
    }

    fn check_syntax(&self, held: usize) -> (r: Result<usize, SyntaxError>) {
        let ghost (p1, n1, p2, n2) = (
            self.0.args_pieces(),
            self.0.args_names(),
            self.1.args_pieces(),
            self.1.args_names(),
        );
        proof {
            self.0.lemma_counts();
            self.1.lemma_counts();
            assert(self.args_pieces() == p1 + (seq![seq![44u8]] + p2));
            assert(self.args_names() == n1 + (seq![false] + n2));
            lemma_build_failure_concat(held as nat, p1, n1, seq![seq![44u8]] + p2, seq![false] + n2);
            lemma_build_failure_concat(
                (held + p1.flatten().len()) as nat,
                seq![seq![44u8]],
                seq![false],
                p2,
                n2,
            );
            lemma_build_failure_single((held + p1.flatten().len()) as nat, seq![44u8], false);
            lemma_build_failure_none(held as nat, p1, n1);
        }
        let held1 = match self.0.check_syntax(held) {
            Ok(n) => n,
            Err(e) => {
                return Err(e);
            },
        };
        if SYNTAX_CAPACITY - held1 < 1 {
            return Err(SyntaxError::Overflow);
        }
        self.1.check_syntax(held1 + 1)
    }

    fn add_text_slots(&self, slots: &mut Vec<bool>) {
        self.0.add_text_slots(slots);
        self.1.add_text_slots(slots);
        assert(old(slots)@ + self.0.text_slots() + self.1.text_slots() =~= old(slots)@
            + self.text_slots());
    }
}

/// Why a command line cannot be described to OS_ReadArgs.
#[derive(Debug, PartialEq, Eq, Structural)]
pub enum SyntaxError {
    /// A name holds a byte other than a letter or an underscore.
    InvalidIdentifier,
    /// The syntax string and its terminating zero do not fit in 256 bytes.
    Overflow,
}

/// A command line made ready for OS_ReadArgs: the syntax string it is described by and
/// the number of output slots that a successful call fills.
///
/// The command line is preceded by an unnamed argument, which takes the first slot.
pub struct ArgsRequest<T: Args> {
    syntax: ((), T),
    syntax_string: SyntaxString,
    arg_count: usize,
}

/// The syntax string for a command line: a separator after the leading unnamed argument,
/// the command line's own syntax, and a terminating zero.
pub open spec fn request_syntax(syntax: Seq<u8>) -> Seq<u8> {
    seq![44u8] + syntax + seq![0u8]
}

impl<T: Args> ArgsRequest<T> {
    /// The command line that was described.
    pub closed spec fn args(&self) -> T {
        self.syntax.1
    }

    /// The bytes of the syntax string, the terminating zero included.
    pub closed spec fn syntax_bytes(&self) -> Seq<u8> {
        syntax_buffer_bytes(self.syntax_string)
    }

    /// The number of output slots, the leading one included.
    pub closed spec fn slot_count(&self) -> nat {
        self.arg_count as nat
    }

    /// What a request built by [`prepare_args`] satisfies.
    pub closed spec fn wf(&self) -> bool {
        &&& self.syntax.1.valid_args()
        &&& self.arg_count == 1 + self.syntax.1.arg_count()
        &&& syntax_buffer_bytes(self.syntax_string) == request_syntax(self.syntax.1.args_syntax())
    }

    /// The syntax string to hand to OS_ReadArgs.
    pub fn syntax_string(&self) -> (r: &SyntaxString)
        ensures
            syntax_buffer_bytes(*r) == self.syntax_bytes(),
    {
        &self.syntax_string
    }

    /// The number of output slots that a successful call fills.
    pub fn arg_count(&self) -> (r: usize)
        ensures
            r == self.slot_count(),
    {
        self.arg_count
    }

    /// For each output slot in turn, whether it points at text to be read.
    pub fn text_slots(&self) -> (r: Vec<bool>)
        requires
            self.wf(),
        ensures
            r@ == seq![false] + self.args().text_slots(),
    {
        let mut slots: Vec<bool> = Vec::new();
        self.syntax.add_text_slots(&mut slots);
        assert(Seq::<bool>::empty() + self.syntax.text_slots() =~= seq![false]
            + self.args().text_slots());
        slots
    }

    /// The typed values of the command line, read from the output slots of an
    /// OS_ReadArgs call that reported `success`; `None` when it failed.
    pub fn finish(&self, success: bool, values: &[ArgValue]) -> (r: Option<T::Result>)
        requires
            self.wf(),
            success ==> values@.len() == self.slot_count() && values_fit(
                values@,
                seq![false] + self.args().text_slots(),
            ),
        ensures
            !success ==> r is None,
            success ==> (r matches Some(x) && self.args().reads_values(values@.skip(1), x)),
    {
        if success {
            proof {
                self.syntax.1.lemma_counts();
                assert(values@.take(values@.len() as int) =~= values@);
                assert(self.syntax.text_slots() =~= seq![false] + self.args().text_slots());
            }
            let (result, _) = self.syntax.read_result(values);
            proof {
                assert(values@.take(values@.len() as int) =~= values@);
            }
            Some(result.1)
        } else {
            None
        }
    }
}

/// The pieces of the whole syntax string for a command line: the separator after the
/// leading unnamed argument, the command line's own pieces, and the terminating zero.
pub open spec fn request_pieces<T: Args>(syntax: T) -> Seq<Seq<u8>> {
    seq![seq![44u8]] + syntax.args_pieces() + seq![seq![0u8]]
}

/// For each piece of the whole syntax string, whether it is a name.
pub open spec fn request_names<T: Args>(syntax: T) -> Seq<bool> {
    seq![false] + syntax.args_names() + seq![false]
}

/// What stops the syntax string for a command line from being built, in the order in
/// which it is built; `None` when it is built.
pub open spec fn request_failure<T: Args>(syntax: T) -> Option<SyntaxError> {
    build_failure(0, request_pieces(syntax), request_names(syntax))
}

/// A syntax string that holds nothing yet.
pub fn new_syntax_string() -> (r: SyntaxString)
    ensures
        syntax_buffer_bytes(r) == Seq::<u8>::empty(),
{
    syntax_buffer_new()
}

/// Describes a command line to OS_ReadArgs: builds its syntax string, checking each name
/// as it is reached.
pub fn prepare_args<T: Args>(syntax: T) -> (r: Result<ArgsRequest<T>, SyntaxError>)
    ensures
        request_failure(syntax) matches Some(e) ==> (r matches Err(f) && f == e),
        request_failure(syntax) is None ==> (r matches Ok(q) && q.wf() && q.args() == syntax
            && q.syntax_bytes() == request_syntax(syntax.args_syntax()) && q.slot_count() == 1
            + syntax.arg_count()),
        request_failure(syntax) is None <==> syntax.valid_args() && syntax.args_syntax().len() + 2
            <= SYNTAX_CAPACITY,
{
    let whole = ((), syntax);
    let ghost (p, n) = (whole.1.args_pieces(), whole.1.args_names());
    proof {
        whole.lemma_counts();
        let comma = seq![seq![44u8]];
        let zero = seq![seq![0u8]];
        assert(request_pieces(whole.1) == whole.args_pieces() + zero);
        assert(request_names(whole.1) == whole.args_names() + seq![false]);
        lemma_build_failure_concat(0, whole.args_pieces(), whole.args_names(), zero, seq![false]);
        lemma_build_failure_single(whole.args_syntax().len(), seq![0u8], false);
        lemma_build_failure_none(0, whole.args_pieces(), whole.args_names());
        lemma_build_failure_none(0, request_pieces(whole.1), request_names(whole.1));
        lemma_names_valid_concat(whole.args_pieces(), whole.args_names(), zero, seq![false]);
        lemma_flatten_concat(whole.args_pieces(), zero);
        lemma_fitting_single(0, seq![0u8]);
        assert(whole.args_syntax() =~= seq![44u8] + whole.1.args_syntax());
        assert(names_valid(whole.args_pieces(), whole.args_names()) == whole.1.valid_args());
    }
    match whole.check_syntax(0) {
        Ok(_) => {},
        Err(e) => {
            return Err(e);
        },
    }
    let mut syntax_string = syntax_buffer_new();
    let added = whole.add_to_syntax(&mut syntax_string);
    let arg_count = match added {
        Ok(n) => n,
        Err(_) => {
            return Err(SyntaxError::Overflow);
        },
    };
    proof {
        lemma_fitting_all(0, whole.args_pieces());
    }
    let pushed = syntax_buffer_push(&mut syntax_string, 0u8);
    if pushed.is_err() {
        return Err(SyntaxError::Overflow);
    }
    proof {
        assert(syntax_buffer_bytes(syntax_string) =~= request_syntax(whole.1.args_syntax()));
    }
    Ok(ArgsRequest { syntax: whole, syntax_string, arg_count })
}

/// How a command line is grouped into pairs does not matter: grouping three command lines
/// either way gives the same syntax string, the same number of arguments and the same
/// text slots, and asks the same of their names.
pub proof fn lemma_grouping<A: Args, B: Args, C: Args>(a: A, b: B, c: C)
    ensures
        ((a, b), c).args_syntax() == (a, (b, c)).args_syntax(),
        ((a, b), c).args_pieces() == (a, (b, c)).args_pieces(),
        ((a, b), c).arg_count() == (a, (b, c)).arg_count(),
        ((a, b), c).text_slots() == (a, (b, c)).text_slots(),
        ((a, b), c).valid_args() == (a, (b, c)).valid_args(),
{
    assert(((a, b), c).args_syntax() =~= (a, (b, c)).args_syntax());
    assert(((a, b), c).args_pieces() =~= (a, (b, c)).args_pieces());
    assert(((a, b), c).text_slots() =~= (a, (b, c)).text_slots());
}

} // verus!
