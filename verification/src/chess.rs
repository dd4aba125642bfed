//! The rules of chess, as the `shakmaty` crate knows them.
//!
//! Positions, moves and their notations are values of that crate. Nothing here looks inside
//! them: they are carried from one call to the next, and what each call returns has a name.

use crate::text::is_word;
use shakmaty::fen::{Fen, ParseFenError};
use shakmaty::san::San;
use shakmaty::uci::{IllegalUciMoveError, ParseUciMoveError, UciMove};
use shakmaty::{Chess, Move, PlayError, Position, PositionError};
use vstd::prelude::*;

verus! {

/// A parsed FEN record.
#[verifier::external_type_specification]
#[verifier::external_body]
pub struct ExFen(Fen);

/// Why a text is not a FEN record.
#[verifier::external_type_specification]
#[verifier::external_body]
pub struct ExParseFenError(ParseFenError);

/// A position of standard chess.
#[verifier::external_type_specification]
#[verifier::external_body]
pub struct ExChess(Chess);

/// Why a FEN record is not a position.
#[verifier::external_type_specification]
#[verifier::external_body]
#[verifier::reject_recursive_types(P)]
pub struct ExPositionError<P>(PositionError<P>);

/// A move in UCI notation.
#[verifier::external_type_specification]
#[verifier::external_body]
pub struct ExUciMove(UciMove);

/// Says that a text is not a move in UCI notation.
#[verifier::external_type_specification]
#[verifier::external_body]
pub struct ExParseUciMoveError(ParseUciMoveError);

/// A move on the board.
#[verifier::external_type_specification]
#[verifier::external_body]
pub struct ExMove(Move);

/// Says that a move in UCI notation is not legal in a position.
#[verifier::external_type_specification]
#[verifier::external_body]
pub struct ExIllegalUciMoveError(IllegalUciMoveError);

/// A move in standard algebraic notation (SAN).
#[verifier::external_type_specification]
#[verifier::external_body]
pub struct ExSan(San);

/// Says that a move could not be played.
#[verifier::external_type_specification]
#[verifier::external_body]
#[verifier::reject_recursive_types(P)]
pub struct ExPlayError<P>(PlayError<P>);

/// What parsing `text` as a FEN record gives.
pub uninterp spec fn parsed_fen(text: Seq<char>) -> Result<Fen, ParseFenError>;

/// The `Debug` text of a FEN error.
pub uninterp spec fn fen_error_debug(e: ParseFenError) -> Seq<char>;

/// What setting up a FEN record as a position of standard chess gives, with castling rights
/// read as in standard chess.
pub uninterp spec fn set_up(fen: Fen) -> Result<Chess, PositionError<Chess>>;

/// The `Debug` text of a position error.
pub uninterp spec fn position_error_debug(e: PositionError<Chess>) -> Seq<char>;

/// What parsing `text` as a move in UCI notation gives.
pub uninterp spec fn parsed_uci(text: Seq<char>) -> Result<UciMove, ParseUciMoveError>;

/// The legal move that a move in UCI notation stands for in a position.
pub uninterp spec fn legal_move(uci: UciMove, pos: Chess) -> Result<Move, IllegalUciMoveError>;

/// A move of a position in standard algebraic notation.
pub uninterp spec fn san_of(pos: Chess, m: Move) -> San;

/// The text of a move in standard algebraic notation.
pub uninterp spec fn san_text(san: San) -> Seq<char>;

/// What playing a move in a position gives.
pub uninterp spec fn position_after(pos: Chess, m: Move) -> Result<Chess, PlayError<Chess>>;

/// The `Debug` text of the error of a move that could not be played.
pub uninterp spec fn play_error_debug(e: PlayError<Chess>) -> Seq<char>;

/// The position that a FEN text describes.
pub open spec fn start(fen: Seq<char>) -> Option<Chess> {
    match parsed_fen(fen) {
        Ok(record) => match set_up(record) {
            Ok(pos) => Some(pos),
            Err(_) => None,
        },
        Err(_) => None,
    }
}

/// The position after the move that `uci` stands for, if it is a legal move.
pub open spec fn next(pos: Chess, uci: Seq<char>) -> Option<Chess> {
    match parsed_uci(uci) {
        Ok(u) => match legal_move(u, pos) {
            Ok(m) => match position_after(pos, m) {
                Ok(after) => Some(after),
                Err(_) => None,
            },
            Err(_) => None,
        },
        Err(_) => None,
    }
}

/// The position after a line of moves in UCI notation, if all of them are legal in turn.
pub open spec fn reached_from(pos: Chess, line: Seq<Seq<char>>) -> Option<Chess>
    decreases line.len(),
{
    if line.len() == 0 {
        Some(pos)
    } else {
        match reached_from(pos, line.drop_last()) {
            Some(before) => next(before, line.last()),
            None => None,
        }
    }
}

/// The position after a line of moves from the position of a FEN text.
pub open spec fn reached(fen: Seq<char>, line: Seq<Seq<char>>) -> Option<Chess> {
    match start(fen) {
        Some(pos) => reached_from(pos, line),
        None => None,
    }
}

/// A legal line of moves leads to `pos` from the position of some FEN text.
///
/// Such positions have passed the validity checks of `shakmaty`, or follow from one that has
/// by legal moves; in particular both sides have a king.
pub open spec fn reachable(pos: Chess) -> bool {
    exists|fen: Seq<char>, line: Seq<Seq<char>>| #[trigger] reached(fen, line) == Some(pos)
}

/// `str::parse::<Fen>`: the result depends on the text alone.
#[verifier::external_body]
pub(crate) fn parse_fen(text: &str) -> (r: Result<Fen, ParseFenError>)
    ensures
        r == parsed_fen(text@),
{
    text.parse::<Fen>()
}

/// The derived `Debug` of `ParseFenError`: the text depends on the error alone.
#[verifier::external_body]
pub(crate) fn fen_error_text(e: &ParseFenError) -> (r: String)
    ensures
        r@ == fen_error_debug(*e),
{
    format!("{:?}", e)
}

/// `Fen::into_position::<Chess>` in `CastlingMode::Standard`: the result depends on the record
/// alone.
#[verifier::external_body]
pub(crate) fn into_position(fen: Fen) -> (r: Result<Chess, PositionError<Chess>>)
    ensures
        r == set_up(fen),
{
    fen.into_position::<Chess>(shakmaty::CastlingMode::Standard)
}

/// The `Debug` of `PositionError`: the text depends on the error alone.
#[verifier::external_body]
pub(crate) fn position_error_text(e: &PositionError<Chess>) -> (r: String)
    ensures
        r@ == position_error_debug(*e),
{
    format!("{:?}", e)
}

/// `str::parse::<UciMove>`: the result depends on the text alone.
#[verifier::external_body]
pub(crate) fn parse_uci(text: &str) -> (r: Result<UciMove, ParseUciMoveError>)
    ensures
        r == parsed_uci(text@),
{
    text.parse::<UciMove>()
}

/// The derived `Debug` of the unit struct `ParseUciMoveError`: its name.
#[verifier::external_body]
pub(crate) fn uci_error_text(e: &ParseUciMoveError) -> (r: String)
    ensures
        r@ == "ParseUciMoveError"@,
{
    format!("{:?}", e)
}

/// `UciMove::to_move`: the result depends on the move and the position. A move that it returns
/// is legal in that position, so that it can be played there.
///
/// The call panics on a board without a king of the side to move, which a reachable position
/// never has.
#[verifier::external_body]
pub(crate) fn to_move(uci: UciMove, pos: &Chess) -> (r: Result<Move, IllegalUciMoveError>)
    requires
        reachable(*pos),
    ensures
        r == legal_move(uci, *pos),
        r matches Ok(m) ==> position_after(*pos, m) is Ok,
{
    uci.to_move(pos)
}

/// The derived `Debug` of the unit struct `IllegalUciMoveError`: its name.
#[verifier::external_body]
pub(crate) fn illegal_error_text(e: &IllegalUciMoveError) -> (r: String)
    ensures
        r@ == "IllegalUciMoveError"@,
{
    format!("{:?}", e)
}

/// `San::from_move`: the result depends on the position and the move.
///
/// The call panics on a board without a king of the side to move, which a reachable position
/// never has.
#[verifier::external_body]
pub(crate) fn san_from_move(pos: &Chess, m: Move) -> (r: San)
    requires
        reachable(*pos),
    ensures
        r == san_of(*pos, m),
{
    San::from_move(pos, m)
}

/// The `Display` of `San`: the text depends on the notation alone. It names at least a square,
/// or is a castling or null move, so that it is not empty, and it holds only ASCII letters,
/// digits and the signs of the notation, so that it has no white space.
#[verifier::external_body]
pub(crate) fn san_to_string(san: &San) -> (r: String)
    ensures
        r@ == san_text(*san),
        is_word(r@),
{
    san.to_string()
}

/// `Position::play` of `Chess`: the result depends on the position and the move.
///
/// The call panics on a board without a king of the side to move, which a reachable position
/// never has.
#[verifier::external_body]
pub(crate) fn play(pos: Chess, m: Move) -> (r: Result<Chess, PlayError<Chess>>)
    requires
        reachable(pos),
    ensures
        r == position_after(pos, m),
{
    pos.play(m)
}

/// The derived `Debug` of `PlayError`: the text depends on the error alone.
#[verifier::external_body]
pub(crate) fn play_error_text(e: &PlayError<Chess>) -> (r: String)
    ensures
        r@ == play_error_debug(*e),
{
    format!("{:?}", e)
}

} // verus!
