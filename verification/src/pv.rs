//! The principal variation (PV): the line of best play that an engine reports.
//!
//! Engines write it in UCI notation ("e2e4 e7e5 g1f3"). People read standard algebraic
//! notation, SAN ("e4 e5 Nf3").

use crate::chess::{
    fen_error_debug, fen_error_text, illegal_error_text, into_position, legal_move, next, parse_fen,
    parse_uci, parsed_fen, parsed_uci, play, play_error_debug, play_error_text, position_after,
    position_error_debug, position_error_text, reachable, reached, reached_from, san_from_move,
    san_of, san_text, san_to_string, set_up, start, to_move, uci_error_text,
};
use crate::style::{coloured, in_colour, RED, RESET};
use crate::text::{
    is_word, join_from, joined, law_words_of_joined, opt_text, split_words, texts, words,
};
use shakmaty::Chess;
use vstd::prelude::*;

verus! {

/// What became of a PV in UCI notation.
#[derive(Debug, PartialEq, Eq)]
pub enum PvOutcome {
    /// Every move was legal; these are the moves in SAN.
    Line(Vec<String>),
    /// The text of the position is not a FEN record.
    BadFen(String),
    /// The FEN record is not a position.
    BadPosition(String),
    /// A word is not a move in UCI notation.
    BadMove { uci: String, detail: String },
    /// A move is not legal where it stands.
    IllegalMove { uci: String, detail: String },
    /// A legal move was not played.
    PlayFailed { uci: String, detail: String },
}

/// The model of a `PvOutcome`.
pub enum PvView {
    Line(Seq<Seq<char>>),
    BadFen(Seq<char>),
    BadPosition(Seq<char>),
    BadMove(Seq<char>, Seq<char>),
    IllegalMove(Seq<char>, Seq<char>),
    PlayFailed(Seq<char>, Seq<char>),
}

impl View for PvOutcome {
    type V = PvView;

    open spec fn view(&self) -> PvView {
        match *self {
            PvOutcome::Line(sans) => PvView::Line(texts(sans@)),
            PvOutcome::BadFen(d) => PvView::BadFen(d@),
            PvOutcome::BadPosition(d) => PvView::BadPosition(d@),
            PvOutcome::BadMove { uci, detail } => PvView::BadMove(uci@, detail@),
            PvOutcome::IllegalMove { uci, detail } => PvView::IllegalMove(uci@, detail@),
            PvOutcome::PlayFailed { uci, detail } => PvView::PlayFailed(uci@, detail@),
        }
    }
}

/// The outcome `v` of the rest of a line whose first moves are `sans`.
pub open spec fn after(sans: Seq<Seq<char>>, v: PvView) -> PvView {
    match v {
        PvView::Line(rest) => PvView::Line(sans + rest),
        _ => v,
    }
}

/// The outcome of a line of moves in UCI notation, from a position.
pub open spec fn line_outcome(pos: Chess, line: Seq<Seq<char>>) -> PvView
    decreases line.len(),
{
    if line.len() == 0 {
        PvView::Line(seq![])
    } else {
        match parsed_uci(line[0]) {
            Err(_) => PvView::BadMove(line[0], "ParseUciMoveError"@),
            Ok(u) => match legal_move(u, pos) {
                Err(_) => PvView::IllegalMove(line[0], "IllegalUciMoveError"@),
                Ok(m) => match position_after(pos, m) {
                    Err(e) => PvView::PlayFailed(line[0], play_error_debug(e)),
                    Ok(then) => after(
                        seq![san_text(san_of(pos, m))],
                        line_outcome(then, line.drop_first()),
                    ),
                },
            },
        }
    }
}

/// The outcome of a PV, from the position of a FEN text.
pub open spec fn pv_outcome(fen: Seq<char>, pv: Seq<char>) -> PvView {
    match parsed_fen(fen) {
        Err(e) => PvView::BadFen(fen_error_debug(e)),
        Ok(record) => match set_up(record) {
            Err(e) => PvView::BadPosition(position_error_debug(e)),
            Ok(pos) => line_outcome(pos, words(pv)),
        },
    }
}

/// What an outcome comes to: the moves with single spaces between them, or a description of
/// what was wrong.
pub open spec fn pv_text(v: PvView) -> Result<Seq<char>, Seq<char>> {
    match v {
        PvView::Line(sans) => Ok(joined(sans, " "@)),
        PvView::BadFen(d) => Err("fen parse error: "@ + d),
        PvView::BadPosition(d) => Err("position error: "@ + d),
        PvView::BadMove(uci, d) => Err("uci parse error on "@ + uci + ": "@ + d),
        PvView::IllegalMove(uci, d) => Err("illegal move "@ + uci + ": "@ + d),
        PvView::PlayFailed(uci, d) => Err("play error on "@ + uci + ": "@ + d),
    }
}

/// The texts of a result of strings.
pub open spec fn result_text(r: Result<String, String>) -> Result<Seq<char>, Seq<char>> {
    match r {
        Ok(s) => Ok(s@),
        Err(e) => Err(e@),
    }
}

fn describe(what: &str, uci: &str, detail: &str) -> (r: String)
    ensures
        r@ == what@ + uci@ + ": "@ + detail@,
{
    let mut out: String = what.to_owned();
    out.append(uci);
    out.append(": ");
    out.append(detail);
    out
}

/// Writes an outcome as text.
pub fn pv_report(outcome: &PvOutcome) -> (r: Result<String, String>)
    ensures
        result_text(r) == pv_text(outcome@),
{
    match outcome {
        PvOutcome::Line(sans) => {
            let line: String = join_from(sans, 0, " ");
            assert(texts(sans@).skip(0) =~= texts(sans@));
            Ok(line)
        },
        PvOutcome::BadFen(d) => {
            let mut out: String = "fen parse error: ".to_owned();
            out.append(d.as_str());
            Err(out)
        },
        PvOutcome::BadPosition(d) => {
            let mut out: String = "position error: ".to_owned();
            out.append(d.as_str());
            Err(out)
        },
        PvOutcome::BadMove { uci, detail } => Err(
            describe("uci parse error on ", uci.as_str(), detail.as_str()),
        ),
        PvOutcome::IllegalMove { uci, detail } => Err(
            describe("illegal move ", uci.as_str(), detail.as_str()),
        ),
        PvOutcome::PlayFailed { uci, detail } => Err(
            describe("play error on ", uci.as_str(), detail.as_str()),
        ),
    }
}

/// Follows a PV move by move from the position of a FEN text.
///
/// The moves of a line in SAN are words, one for each word of the PV, and no legal move fails
/// to be played.
pub fn convert_pv(fen: &str, pv: &str) -> (r: PvOutcome)
    ensures
        r@ == pv_outcome(fen@, pv@),
        r@ !is PlayFailed,
        r@ matches PvView::Line(sans) ==> {
            &&& sans.len() == words(pv@).len()
            &&& forall|i: int| 0 <= i < sans.len() ==> is_word(#[trigger] sans[i])
        },
{
    let record = match parse_fen(fen) {
        Ok(record) => record,
        Err(e) => {
            return PvOutcome::BadFen(fen_error_text(&e));
        },
    };
    let mut pos = match into_position(record) {
        Ok(pos) => pos,
        Err(e) => {
            return PvOutcome::BadPosition(position_error_text(&e));
        },
    };
    let line: Vec<String> = split_words(pv);
    let mut sans: Vec<String> = Vec::new();
    let ghost first = pos;
    let ghost all = words(pv@);
    let mut i: usize = 0;
    assert(all.skip(0) =~= all);
    assert(all.take(0) =~= seq![]);
    proof {
        let rest = line_outcome(pos, all);
        if let PvView::Line(l) = rest {
            assert(texts(sans@) + l =~= l);
        }
    }
    while i < line.len()
        invariant
            i <= line@.len(),
            texts(line@) == all,
            all == words(pv@),
            start(fen@) == Some(first),
            pv_outcome(fen@, pv@) == line_outcome(first, all),
            reached_from(first, all.take(i as int)) == Some(pos),
            sans@.len() == i,
            forall|k: int| 0 <= k < i ==> is_word(#[trigger] texts(sans@)[k]),
            line_outcome(first, all) == after(
                texts(sans@),
                line_outcome(pos, all.skip(i as int)),
            ),
        decreases line@.len() - i,
    {
        let ghost rest = all.skip(i as int);
        assert(rest[0] == line@[i as int]@);
        assert(rest.drop_first() =~= all.skip(i + 1));
        assert(reached(fen@, all.take(i as int)) == Some(pos));
        assert(all.take(i + 1).drop_last() =~= all.take(i as int));
        let uci = match parse_uci(line[i].as_str()) {
            Ok(uci) => uci,
            Err(e) => {
                return PvOutcome::BadMove { uci: line[i].clone(), detail: uci_error_text(&e) };
            },
        };
        let m = match to_move(uci, &pos) {
            Ok(m) => m,
            Err(e) => {
                return PvOutcome::IllegalMove {
                    uci: line[i].clone(),
                    detail: illegal_error_text(&e),
                };
            },
        };
        let san: String = san_to_string(&san_from_move(&pos, m));
        let ghost before = texts(sans@);
        sans.push(san);
        assert(texts(sans@) =~= before.push(san@));
        pos = match play(pos, m) {
            Ok(then) => then,
            Err(e) => {
                return PvOutcome::PlayFailed { uci: line[i].clone(), detail: play_error_text(&e) };
            },
        };
        proof {
            let tail = line_outcome(pos, all.skip(i + 1));
            if let PvView::Line(l) = tail {
                assert(before + (seq![san@] + l) =~= texts(sans@) + l);
            }
        }
        i += 1;
    }
    assert(all.skip(i as int) =~= seq![]);
    assert(texts(sans@) + seq![] =~= texts(sans@));
    PvOutcome::Line(sans)
}

/// Converts a PV from UCI notation into SAN, starting from the position of a FEN text.
///
/// It succeeds exactly if every word of the PV is a legal move where it stands. The result then
/// has a word for each of them, with single spaces between: the SAN of that move in the position
/// that the words before it lead to. Otherwise the error tells what was wrong first.
pub fn uci_pv_to_san(fen: &str, pv: &str) -> (r: Result<String, String>)
    ensures
        result_text(r) == pv_text(pv_outcome(fen@, pv@)),
        r is Ok <==> reached(fen@, words(pv@)) is Some,
        r matches Ok(san) ==> words(san@).len() == words(pv@).len(),
        r matches Ok(san) ==> san@ == joined(words(san@), seq![' ']),
        r matches Ok(san) ==> forall|i: int|
            0 <= i < words(pv@).len() ==> (#[trigger] words(san@)[i]) == ({
                let before = reached(fen@, words(pv@).take(i))->0;
                let m = legal_move(parsed_uci(words(pv@)[i])->Ok_0, before)->Ok_0;
                san_text(san_of(before, m))
            }),
        r matches Err(e) ==> match parsed_fen(fen@) {
            Err(d) => e@ == "fen parse error: "@ + fen_error_debug(d),
            Ok(record) => set_up(record) matches Err(d) ==> e@ == "position error: "@
                + position_error_debug(d),
        },
        r matches Err(e) ==> forall|i: int|
            0 <= i < words(pv@).len() && reached(fen@, #[trigger] words(pv@).take(i)) is Some
                && reached(fen@, words(pv@).take(i + 1)) is None ==> (match parsed_uci(
                words(pv@)[i],
            ) {
                Err(_) => e@ == "uci parse error on "@ + words(pv@)[i] + ": "@
                    + "ParseUciMoveError"@,
                Ok(_) => e@ == "illegal move "@ + words(pv@)[i] + ": "@ + "IllegalUciMoveError"@,
            }),
{
    let outcome: PvOutcome = convert_pv(fen, pv);
    proof {
        law_converts_iff_legal(fen@, pv@);
        let line = words(pv@);
        if let PvView::Line(sans) = outcome@ {
            reveal_strlit(" ");
            assert(" "@ =~= seq![' ']);
            law_words_of_joined(sans);
            assert forall|i: int| 0 <= i < line.len() implies (#[trigger] sans[i]) == ({
                let before = reached(fen@, line.take(i))->0;
                let m = legal_move(parsed_uci(line[i])->Ok_0, before)->Ok_0;
                san_text(san_of(before, m))
            }) by {
                law_each_word_is_converted(fen@, pv@, i);
            }
        } else {
            assert forall|i: int|
                0 <= i < line.len() && reached(fen@, #[trigger] line.take(i)) is Some && reached(
                    fen@,
                    line.take(i + 1),
                ) is None implies (match parsed_uci(line[i]) {
                Err(_) => pv_text(outcome@) == Err::<Seq<char>, Seq<char>>(
                    "uci parse error on "@ + line[i] + ": "@ + "ParseUciMoveError"@,
                ),
                Ok(_) => pv_text(outcome@) == Err::<Seq<char>, Seq<char>>(
                    "illegal move "@ + line[i] + ": "@ + "IllegalUciMoveError"@,
                ),
            }) by {
                law_first_wrong_word_is_told(fen@, pv@, i);
            }
        }
    }
    pv_report(&outcome)
}

/// The first move of a line can be split off.
proof fn lemma_reached_front(pos: Chess, line: Seq<Seq<char>>)
    requires
        line.len() > 0,
    ensures
        reached_from(pos, line) == (match next(pos, line[0]) {
            Some(then) => reached_from(then, line.drop_first()),
            None => None,
        }),
    decreases line.len(),
{
    let init = line.drop_last();
    if line.len() == 1 {
        assert(init =~= seq![]);
        assert(line.drop_first() =~= seq![]);
        assert(reached_from(pos, init) == Some(pos));
        if let Some(then) = next(pos, line[0]) {
            assert(reached_from(then, line.drop_first()) == Some(then));
        }
    } else {
        lemma_reached_front(pos, init);
        assert(init[0] == line[0]);
        assert(line.drop_first().drop_last() =~= init.drop_first());
        assert(line.drop_first().last() == line.last());
    }
}

/// A line converts exactly if all its moves are legal in turn.
proof fn lemma_line_iff_reached(pos: Chess, line: Seq<Seq<char>>)
    ensures
        line_outcome(pos, line) is Line <==> reached_from(pos, line) is Some,
    decreases line.len(),
{
    if line.len() > 0 {
        lemma_reached_front(pos, line);
        if let Some(then) = next(pos, line[0]) {
            lemma_line_iff_reached(then, line.drop_first());
        }
    }
}

/// The conversion succeeds if and only if the FEN text describes a position and each word of
/// the PV is a move that is legal where it stands; otherwise there is a description of what was
/// wrong.
pub proof fn law_converts_iff_legal(fen: Seq<char>, pv: Seq<char>)
    ensures
        pv_text(pv_outcome(fen, pv)) is Ok <==> reached(fen, words(pv)) is Some,
{
    if let Some(pos) = start(fen) {
        lemma_line_iff_reached(pos, words(pv));
    }
}

/// The conversion of a longer line continues that of its beginning: the first moves keep their
/// notation, and the others are converted from the position that the first ones lead to.
pub proof fn law_longer_line(pos: Chess, line: Seq<Seq<char>>, more: Seq<Seq<char>>)
    ensures
        line_outcome(pos, line + more) == (match line_outcome(pos, line) {
            PvView::Line(sans) => after(
                sans,
                line_outcome(reached_from(pos, line)->0, more),
            ),
            failed => failed,
        }),
    decreases line.len(),
{
    if line.len() == 0 {
        assert(line + more =~= more);
        let sans: Seq<Seq<char>> = seq![];
        if let PvView::Line(rest) = line_outcome(pos, more) {
            assert(sans + rest =~= rest);
        }
    } else {
        lemma_reached_front(pos, line);
        assert((line + more)[0] == line[0]);
        assert((line + more).drop_first() =~= line.drop_first() + more);
        if let Some(then) = next(pos, line[0]) {
            law_longer_line(then, line.drop_first(), more);
            let m = legal_move(parsed_uci(line[0])->Ok_0, pos)->Ok_0;
            let first = seq![san_text(san_of(pos, m))];
            if let PvView::Line(sans) = line_outcome(then, line.drop_first()) {
                let end = reached_from(then, line.drop_first())->0;
                if let PvView::Line(rest) = line_outcome(end, more) {
                    assert(first + (sans + rest) =~= (first + sans) + rest);
                }
            }
        }
    }
}

/// Each move of a legal line is converted by itself: it is the SAN of the move that the word
/// stands for, in the position that the moves before it lead to.
proof fn lemma_each_move(pos: Chess, line: Seq<Seq<char>>, i: int)
    requires
        reached_from(pos, line) is Some,
        0 <= i < line.len(),
    ensures
        line_outcome(pos, line) is Line,
        line_outcome(pos, line)->Line_0.len() == line.len(),
        reached_from(pos, line.take(i)) is Some,
        line_outcome(pos, line)->Line_0[i] == ({
            let before = reached_from(pos, line.take(i))->0;
            let m = legal_move(parsed_uci(line[i])->Ok_0, before)->Ok_0;
            san_text(san_of(before, m))
        }),
    decreases line.len(),
{
    let rest = line.drop_first();
    lemma_reached_front(pos, line);
    let then = next(pos, line[0])->0;
    lemma_line_iff_reached(then, rest);
    if rest.len() > 0 {
        lemma_each_move(
            then,
            rest,
            if i > 0 {
                i - 1
            } else {
                0
            },
        );
    }
    if i == 0 {
        assert(line.take(0) =~= seq![]);
        assert(reached_from(pos, line.take(0)) == Some(pos));
    } else {
        lemma_reached_front(pos, line.take(i));
        assert(line.take(i)[0] == line[0]);
        assert(line.take(i).drop_first() =~= rest.take(i - 1));
        assert(rest[i - 1] == line[i]);
    }
}

/// A PV whose moves are all legal in turn is converted word by word: each word becomes the SAN
/// of the move that it stands for, in the position that the words before it lead to from the
/// position of the FEN text. The words are written with one space between neighbours.
pub proof fn law_each_word_is_converted(fen: Seq<char>, pv: Seq<char>, i: int)
    requires
        reached(fen, words(pv)) is Some,
        0 <= i < words(pv).len(),
    ensures
        pv_outcome(fen, pv) is Line,
        pv_outcome(fen, pv)->Line_0.len() == words(pv).len(),
        reached(fen, words(pv).take(i)) is Some,
        pv_outcome(fen, pv)->Line_0[i] == ({
            let before = reached(fen, words(pv).take(i))->0;
            let m = legal_move(parsed_uci(words(pv)[i])->Ok_0, before)->Ok_0;
            san_text(san_of(before, m))
        }),
        pv_text(pv_outcome(fen, pv)) == Ok::<Seq<char>, Seq<char>>(
            joined(pv_outcome(fen, pv)->Line_0, " "@),
        ),
{
    lemma_each_move(start(fen)->0, words(pv), i);
}

/// The first word of a PV that is no legal move where it stands is the one that is told, with
/// what is wrong with it.
pub proof fn law_first_wrong_word_is_told(fen: Seq<char>, pv: Seq<char>, i: int)
    requires
        0 <= i < words(pv).len(),
        reached(fen, words(pv).take(i)) is Some,
        reached(fen, words(pv).take(i + 1)) is None,
    ensures
        ({
            let word = words(pv)[i];
            let before = reached(fen, words(pv).take(i))->0;
            pv_outcome(fen, pv) is PlayFailed <==> parsed_uci(word) is Ok && legal_move(
                parsed_uci(word)->Ok_0,
                before,
            ) is Ok
        }),
        ({
            let word = words(pv)[i];
            let before = reached(fen, words(pv).take(i))->0;
            pv_text(pv_outcome(fen, pv)) == Err::<Seq<char>, Seq<char>>(
                match parsed_uci(word) {
                    Err(_) => "uci parse error on "@ + word + ": "@ + "ParseUciMoveError"@,
                    Ok(u) => match legal_move(u, before) {
                        Err(_) => "illegal move "@ + word + ": "@ + "IllegalUciMoveError"@,
                        Ok(m) => "play error on "@ + word + ": "@ + play_error_debug(
                            position_after(before, m)->Err_0,
                        ),
                    },
                },
            )
        }),
{
    let line = words(pv);
    let pos = start(fen)->0;
    let before = reached_from(pos, line.take(i))->0;
    assert(line =~= line.take(i) + line.skip(i));
    law_longer_line(pos, line.take(i), line.skip(i));
    lemma_line_iff_reached(pos, line.take(i));
    assert(line.take(i + 1).drop_last() =~= line.take(i));
    assert(line.take(i + 1).last() == line[i]);
    assert(line.skip(i)[0] == line[i]);
    assert(next(before, line[i]) is None);
}

/// A text that is no FEN record, and a record that is no position, are told as such, whatever
/// the PV is.
pub proof fn law_wrong_position_is_told(fen: Seq<char>, pv: Seq<char>)
    ensures
        match parsed_fen(fen) {
            Err(e) => pv_text(pv_outcome(fen, pv)) == Err::<Seq<char>, Seq<char>>(
                "fen parse error: "@ + fen_error_debug(e),
            ),
            Ok(record) => set_up(record) matches Err(e) ==> pv_text(pv_outcome(fen, pv)) == Err::<
                Seq<char>,
                Seq<char>,
            >("position error: "@ + position_error_debug(e)),
        },
{
}

/// Positions are followed move by move: a line leads to where its last move leads from where the
/// moves before it lead, by the legal move that the word stands for.
pub proof fn law_reached_by_legal_moves(fen: Seq<char>, line: Seq<Seq<char>>, uci: Seq<char>)
    ensures
        reached(fen, seq![]) == (match parsed_fen(fen) {
            Ok(record) => match set_up(record) {
                Ok(pos) => Some(pos),
                Err(_) => None,
            },
            Err(_) => None,
        }),
        reached(fen, line.push(uci)) == (match reached(fen, line) {
            Some(before) => if parsed_uci(uci) is Ok && legal_move(
                parsed_uci(uci)->Ok_0,
                before,
            ) is Ok && position_after(
                before,
                legal_move(parsed_uci(uci)->Ok_0, before)->Ok_0,
            ) is Ok {
                Some(position_after(before, legal_move(parsed_uci(uci)->Ok_0, before)->Ok_0)->Ok_0)
            } else {
                None
            },
            None => None,
        }),
{
    assert(line.push(uci).drop_last() =~= line);
}

/// A PV as it is shown and handed in.
#[derive(Debug, PartialEq, Eq)]
pub struct ShownPv {
    pub text: String,
    /// What went wrong, where the PV could not be converted.
    pub failure: Option<String>,
}

/// The text of a PV to show: its conversion, or the PV itself where the conversion failed.
pub open spec fn shown(pv: Seq<char>, converted: Result<Seq<char>, Seq<char>>) -> Seq<char> {
    match converted {
        Ok(san) => san,
        Err(_) => pv,
    }
}

/// What to report of a conversion that failed.
pub open spec fn failure(converted: Result<Seq<char>, Seq<char>>) -> Option<Seq<char>> {
    match converted {
        Ok(_) => None,
        Err(e) => Some(in_colour(RED@, "PV UCI->SAN conversion failed: "@ + e)),
    }
}

/// Chooses what to show of a PV, given its conversion.
pub fn choose_pv(pv: &str, converted: Result<String, String>) -> (r: ShownPv)
    ensures
        r.text@ == shown(pv@, result_text(converted)),
        opt_text(r.failure) == failure(result_text(converted)),
        match converted {
            Ok(san) => r.text@ == san@ && r.failure is None,
            Err(e) => r.text@ == pv@ && opt_text(r.failure) == Some(
                RED@ + ("PV UCI->SAN conversion failed: "@ + e@) + RESET@,
            ),
        },
{
    match converted {
        Ok(san) => ShownPv { text: san, failure: None },
        Err(e) => {
            let mut message: String = "PV UCI->SAN conversion failed: ".to_owned();
            message.append(e.as_str());
            ShownPv { text: pv.to_owned(), failure: Some(coloured(RED, message.as_str())) }
        },
    }
}

/// What is shown of the PV of an analysis: nothing where the engine gave none.
pub open spec fn displayed(fen: Seq<char>, pv: Seq<char>) -> Seq<char> {
    if pv.len() == 0 {
        seq![]
    } else {
        shown(pv, pv_text(pv_outcome(fen, pv)))
    }
}

/// What is reported of the PV of an analysis that could not be converted.
pub open spec fn display_failure(fen: Seq<char>, pv: Seq<char>) -> Option<Seq<char>> {
    if pv.len() == 0 {
        None
    } else {
        failure(pv_text(pv_outcome(fen, pv)))
    }
}

/// The PV to show for an analysis. There is nothing to convert where the engine gave none.
///
/// What is shown has as many words as the PV, whatever the conversion comes to.
pub fn pv_display(fen: &str, pv: &str) -> (r: ShownPv)
    ensures
        r.text@ == displayed(fen@, pv@),
        opt_text(r.failure) == display_failure(fen@, pv@),
        words(r.text@).len() == words(pv@).len(),
        pv@.len() == 0 ==> r.text@.len() == 0,
        r.failure is Some <==> pv@.len() > 0 && reached(fen@, words(pv@)) is None,
        r.failure is Some ==> r.text@ == pv@,
        r.failure is None ==> r.text@ == joined(words(r.text@), seq![' ']),
        r.failure is None ==> forall|i: int|
            0 <= i < words(pv@).len() ==> (#[trigger] words(r.text@)[i]) == ({
                let before = reached(fen@, words(pv@).take(i))->0;
                let m = legal_move(parsed_uci(words(pv@)[i])->Ok_0, before)->Ok_0;
                san_text(san_of(before, m))
            }),
{
    if pv.is_empty() {
        assert(pv@ =~= seq![]);
        let none: String = String::new();
        assert(none@ =~= joined(words(none@), seq![' ']));
        ShownPv { text: none, failure: None }
    } else {
        choose_pv(pv, uci_pv_to_san(fen, pv))
    }
}

/// A PV is never lost: where it cannot be converted, it is shown as the engine wrote it, and the
/// failure is reported; where it can be, nothing is reported.
pub proof fn law_pv_is_never_lost(fen: Seq<char>, pv: Seq<char>)
    requires
        pv.len() > 0,
    ensures
        reached(fen, words(pv)) is None ==> displayed(fen, pv) == pv && display_failure(
            fen,
            pv,
        ) is Some,
        reached(fen, words(pv)) is Some ==> pv_text(pv_outcome(fen, pv)) == Ok::<
            Seq<char>,
            Seq<char>,
        >(displayed(fen, pv)) && display_failure(fen, pv) is None,
{
    law_converts_iff_legal(fen, pv);
}

/// Where the engine gave no PV, nothing is shown, and nothing is reported of it.
pub proof fn law_no_pv_shows_nothing(fen: Seq<char>)
    ensures
        displayed(fen, seq![]) == Seq::<char>::empty(),
        display_failure(fen, seq![]) is None,
{
}

/// The model of an outcome holds what the outcome holds.
pub proof fn law_models_leave_nothing_out(sans: Vec<String>, uci: String, detail: String)
    ensures
        PvOutcome::Line(sans)@ == PvView::Line(texts(sans@)),
        PvOutcome::BadFen(detail)@ == PvView::BadFen(detail@),
        PvOutcome::BadPosition(detail)@ == PvView::BadPosition(detail@),
        (PvOutcome::BadMove { uci, detail })@ == PvView::BadMove(uci@, detail@),
        (PvOutcome::IllegalMove { uci, detail })@ == PvView::IllegalMove(uci@, detail@),
        (PvOutcome::PlayFailed { uci, detail })@ == PvView::PlayFailed(uci@, detail@),
{
}

/// What is told of an outcome: the moves with one space between neighbours, or what was wrong.
pub proof fn law_outcomes_are_told(sans: Seq<Seq<char>>, uci: Seq<char>, detail: Seq<char>)
    ensures
        pv_text(PvView::Line(sans)) == Ok::<Seq<char>, Seq<char>>(joined(sans, " "@)),
        pv_text(PvView::BadFen(detail)) == Err::<Seq<char>, Seq<char>>(
            "fen parse error: "@ + detail,
        ),
        pv_text(PvView::BadPosition(detail)) == Err::<Seq<char>, Seq<char>>(
            "position error: "@ + detail,
        ),
        pv_text(PvView::BadMove(uci, detail)) == Err::<Seq<char>, Seq<char>>(
            "uci parse error on "@ + uci + ": "@ + detail,
        ),
        pv_text(PvView::IllegalMove(uci, detail)) == Err::<Seq<char>, Seq<char>>(
            "illegal move "@ + uci + ": "@ + detail,
        ),
        pv_text(PvView::PlayFailed(uci, detail)) == Err::<Seq<char>, Seq<char>>(
            "play error on "@ + uci + ": "@ + detail,
        ),
{
}

} // verus!
