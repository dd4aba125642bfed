//! The Universal Chess Interface (UCI): what the worker tells an engine, and what it reads in
//! the lines of an engine.

use crate::text::{
    contains, decimal, is_word, join_from, joined, law_decimal, law_parse_of_decimal,
    law_without_nothing, law_words_of_joined, mentions, number, opt_text, parse_u32, parsed_u32,
    remove_all, same, split_words, stands_at, texts, trim, trimmed, trimmed_start, without, words,
};
use vstd::prelude::*;

verus! {

/// What an engine says in one line of its search.
///
/// The values are kept as the engine writes them; a value that it does not give is empty, and
/// the depth is then 0.
#[derive(Debug, PartialEq, Eq)]
pub struct InfoLine {
    pub depth: u32,
    pub score: String,
    pub nps: String,
    pub nodes: String,
    pub time_ms: String,
    pub mate: String,
    pub pv: String,
}

/// The model of an `InfoLine`.
pub struct InfoView {
    pub depth: u32,
    pub score: Seq<char>,
    pub nps: Seq<char>,
    pub nodes: Seq<char>,
    pub time_ms: Seq<char>,
    pub mate: Seq<char>,
    pub pv: Seq<char>,
}

impl View for InfoLine {
    type V = InfoView;

    open spec fn view(&self) -> InfoView {
        InfoView {
            depth: self.depth,
            score: self.score@,
            nps: self.nps@,
            nodes: self.nodes@,
            time_ms: self.time_ms@,
            mate: self.mate@,
            pv: self.pv@,
        }
    }
}

/// Nothing said yet.
pub open spec fn no_info() -> InfoView {
    InfoView {
        depth: 0,
        score: seq![],
        nps: seq![],
        nodes: seq![],
        time_ms: seq![],
        mate: seq![],
        pv: seq![],
    }
}

impl Default for InfoLine {
    fn default() -> (r: InfoLine)
        ensures
            r@ == no_info(),
    {
        InfoLine {
            depth: 0,
            score: String::new(),
            nps: String::new(),
            nodes: String::new(),
            time_ms: String::new(),
            mate: String::new(),
            pv: String::new(),
        }
    }
}

/// The keywords whose value is the next word.
pub open spec fn is_key(word: Seq<char>) -> bool {
    ||| word == "depth"@
    ||| word == "cp"@
    ||| word == "nps"@
    ||| word == "nodes"@
    ||| word == "time"@
    ||| word == "mate"@
}

/// The fields of a line of words, in order, each a keyword with its value.
///
/// The value of `pv` is the rest of the line. The value of another keyword is the next word,
/// which is then no keyword itself. Words that are not keywords mean nothing, nor does a
/// keyword at the end of the line.
pub open spec fn fields(line: Seq<Seq<char>>) -> Seq<(Seq<char>, Seq<char>)>
    decreases line.len(),
{
    if line.len() < 2 {
        seq![]
    } else if line[0] == "pv"@ {
        seq![("pv"@, joined(line.drop_first(), " "@))]
    } else if is_key(line[0]) {
        seq![(line[0], line[1])] + fields(line.skip(2))
    } else {
        fields(line.drop_first())
    }
}

/// The value of the last field with a keyword, or `otherwise` where there is none.
pub open spec fn value_of(
    fs: Seq<(Seq<char>, Seq<char>)>,
    key: Seq<char>,
    otherwise: Seq<char>,
) -> Seq<char>
    decreases fs.len(),
{
    if fs.len() == 0 {
        otherwise
    } else if fs.last().0 == key {
        fs.last().1
    } else {
        value_of(fs.drop_last(), key, otherwise)
    }
}

/// The number that a text stands for, or 0 where it stands for none.
pub open spec fn number_or_zero(s: Seq<char>) -> u32 {
    match parsed_u32(s) {
        Some(n) => n,
        None => 0,
    }
}

/// What a line of an engine says.
pub open spec fn info_of(line: Seq<char>) -> InfoView {
    let fs = fields(words(line));
    InfoView {
        depth: number_or_zero(value_of(fs, "depth"@, seq![])),
        score: value_of(fs, "cp"@, seq![]),
        nps: value_of(fs, "nps"@, seq![]),
        nodes: value_of(fs, "nodes"@, seq![]),
        time_ms: value_of(fs, "time"@, seq![]),
        mate: value_of(fs, "mate"@, seq![]),
        pv: value_of(fs, "pv"@, seq![]),
    }
}

/// A field in front of others is the value of its keyword only where no other gives one.
proof fn lemma_value_of_front(
    field: (Seq<char>, Seq<char>),
    fs: Seq<(Seq<char>, Seq<char>)>,
    key: Seq<char>,
    otherwise: Seq<char>,
)
    ensures
        value_of(seq![field] + fs, key, otherwise) == value_of(
            fs,
            key,
            if field.0 == key {
                field.1
            } else {
                otherwise
            },
        ),
    decreases fs.len(),
{
    let all = seq![field] + fs;
    if fs.len() == 0 {
        assert(all =~= seq![field]);
        assert(all.drop_last() =~= seq![]);
        assert(value_of(all.drop_last(), key, otherwise) == otherwise);
    } else {
        assert(all.last() == fs.last());
        assert(all.drop_last() =~= seq![field] + fs.drop_last());
        lemma_value_of_front(field, fs.drop_last(), key, otherwise);
    }
}

/// The seven keywords differ from one another.
proof fn lemma_keywords_differ()
    ensures
        "depth"@ != "cp"@,
        "depth"@ != "nps"@,
        "depth"@ != "nodes"@,
        "depth"@ != "time"@,
        "depth"@ != "mate"@,
        "depth"@ != "pv"@,
        "cp"@ != "nps"@,
        "cp"@ != "nodes"@,
        "cp"@ != "time"@,
        "cp"@ != "mate"@,
        "cp"@ != "pv"@,
        "nps"@ != "nodes"@,
        "nps"@ != "time"@,
        "nps"@ != "mate"@,
        "nps"@ != "pv"@,
        "nodes"@ != "time"@,
        "nodes"@ != "mate"@,
        "nodes"@ != "pv"@,
        "time"@ != "mate"@,
        "time"@ != "pv"@,
        "mate"@ != "pv"@,
{
    reveal_strlit("depth");
    reveal_strlit("cp");
    reveal_strlit("nps");
    reveal_strlit("nodes");
    reveal_strlit("time");
    reveal_strlit("mate");
    reveal_strlit("pv");
    assert("cp"@.len() == 2 && "pv"@.len() == 2 && "nps"@.len() == 3);
    assert("time"@.len() == 4 && "mate"@.len() == 4);
    assert("depth"@.len() == 5 && "nodes"@.len() == 5);
    assert("depth"@[0] != "nodes"@[0]);
    assert("cp"@[0] != "pv"@[0]);
    assert("time"@[0] != "mate"@[0]);
}

/// Reads a line of an engine.
pub fn parse_info(line: &str) -> (r: InfoLine)
    ensures
        r@ == info_of(line@),
        r.depth == info_of(line@).depth,
        r.score@ == info_of(line@).score,
        r.nps@ == info_of(line@).nps,
        r.nodes@ == info_of(line@).nodes,
        r.time_ms@ == info_of(line@).time_ms,
        r.mate@ == info_of(line@).mate,
        r.pv@ == info_of(line@).pv,
{
    let mut info: InfoLine = InfoLine::default();
    let tokens: Vec<String> = split_words(line);
    let mut i: usize = 0;
    let ghost all = words(line@);
    let ghost fs = fields(all);
    let ghost mut depth_text: Seq<char> = seq![];
    let ghost none: Seq<char> = seq![];
    proof {
        lemma_keywords_differ();
        assert(all.skip(0) =~= all);
        assert(parsed_u32(none) is None);
    }
    while i < tokens.len()
        invariant_except_break
            value_of(fs, "pv"@, none) == value_of(fields(all.skip(i as int)), "pv"@, info.pv@),
            i <= tokens@.len(),
            value_of(fs, "depth"@, none) == value_of(
                fields(all.skip(i as int)),
                "depth"@,
                depth_text,
            ),
            value_of(fs, "cp"@, none) == value_of(fields(all.skip(i as int)), "cp"@, info.score@),
            value_of(fs, "nps"@, none) == value_of(fields(all.skip(i as int)), "nps"@, info.nps@),
            value_of(fs, "nodes"@, none) == value_of(
                fields(all.skip(i as int)),
                "nodes"@,
                info.nodes@,
            ),
            value_of(fs, "time"@, none) == value_of(
                fields(all.skip(i as int)),
                "time"@,
                info.time_ms@,
            ),
            value_of(fs, "mate"@, none) == value_of(
                fields(all.skip(i as int)),
                "mate"@,
                info.mate@,
            ),
        invariant
            texts(tokens@) == all,
            fs == fields(all),
            none == Seq::<char>::empty(),
            all == words(line@),
            info.depth == number_or_zero(depth_text),
        ensures
            info@ == info_of(line@),
        decreases tokens@.len() - i,
    {
        let ghost rest = all.skip(i as int);
        proof {
            lemma_keywords_differ();
            assert(rest[0] == tokens@[i as int]@);
            assert(rest.drop_first() =~= all.skip(i + 1));
        }
        if i + 1 < tokens.len() {
            let ghost field = (rest[0], rest[1]);
            let ghost then = fields(rest.skip(2));
            proof {
                assert(rest[1] == tokens@[i + 1]@);
                assert(rest.skip(2) =~= all.skip(i + 2));
                lemma_value_of_front(field, then, "depth"@, depth_text);
                lemma_value_of_front(field, then, "cp"@, info.score@);
                lemma_value_of_front(field, then, "nps"@, info.nps@);
                lemma_value_of_front(field, then, "nodes"@, info.nodes@);
                lemma_value_of_front(field, then, "time"@, info.time_ms@);
                lemma_value_of_front(field, then, "mate"@, info.mate@);
                lemma_value_of_front(field, then, "pv"@, info.pv@);
            }
            let key: &str = tokens[i].as_str();
            if same(key, "depth") {
                info.depth = match parse_u32(tokens[i + 1].as_str()) {
                    Some(n) => n,
                    None => 0,
                };
                proof {
                    depth_text = tokens@[i + 1]@;
                }
                i += 1;
            } else if same(key, "cp") {
                info.score = tokens[i + 1].clone();
                i += 1;
            } else if same(key, "nps") {
                info.nps = tokens[i + 1].clone();
                i += 1;
            } else if same(key, "nodes") {
                info.nodes = tokens[i + 1].clone();
                i += 1;
            } else if same(key, "time") {
                info.time_ms = tokens[i + 1].clone();
                i += 1;
            } else if same(key, "mate") {
                info.mate = tokens[i + 1].clone();
                i += 1;
            } else if same(key, "pv") {
                let ghost pv_field = ("pv"@, joined(rest.drop_first(), " "@));
                proof {
                    let empty: Seq<(Seq<char>, Seq<char>)> = seq![];
                    assert(fields(rest) =~= seq![pv_field] + empty);
                    lemma_value_of_front(pv_field, empty, "depth"@, depth_text);
                    lemma_value_of_front(pv_field, empty, "cp"@, info.score@);
                    lemma_value_of_front(pv_field, empty, "nps"@, info.nps@);
                    lemma_value_of_front(pv_field, empty, "nodes"@, info.nodes@);
                    lemma_value_of_front(pv_field, empty, "time"@, info.time_ms@);
                    lemma_value_of_front(pv_field, empty, "mate"@, info.mate@);
                    lemma_value_of_front(pv_field, empty, "pv"@, info.pv@);
                }
                info.pv = join_from(&tokens, i + 1, " ");
                break;
            }
        } else {
            assert(fields(rest) =~= seq![]);
            assert(fields(all.skip(i + 1)) =~= seq![]);
        }
        i += 1;
    }
    info
}

/// Fields as an engine writes them: each keyword, then its value.
pub open spec fn written(fs: Seq<(Seq<char>, Seq<char>)>) -> Seq<Seq<char>>
    decreases fs.len(),
{
    if fs.len() == 0 {
        seq![]
    } else {
        seq![fs[0].0, fs[0].1] + written(fs.drop_first())
    }
}

/// Reading undoes writing: fields in any order, followed by a PV, are found again, whatever
/// their values are.
pub proof fn law_fields_of_written(fs: Seq<(Seq<char>, Seq<char>)>, moves: Seq<Seq<char>>)
    requires
        forall|i: int| 0 <= i < fs.len() ==> is_key((#[trigger] fs[i]).0),
        moves.len() > 0,
    ensures
        fields(written(fs) + (seq!["pv"@] + moves)) == fs.push(("pv"@, joined(moves, " "@))),
    decreases fs.len(),
{
    let tail = seq!["pv"@] + moves;
    if fs.len() == 0 {
        assert(written(fs) + tail =~= tail);
        assert(tail.drop_first() =~= moves);
        assert(fields(tail) =~= fs.push(("pv"@, joined(moves, " "@))));
    } else {
        lemma_keywords_differ();
        let rest = fs.drop_first();
        assert forall|i: int| 0 <= i < rest.len() implies is_key((#[trigger] rest[i]).0) by {
            assert(rest[i] == fs[i + 1]);
        }
        law_fields_of_written(rest, moves);
        let line = written(fs) + tail;
        assert(is_key(fs[0].0));
        assert(line[0] == fs[0].0);
        assert(line[1] == fs[0].1);
        assert(line.skip(2) =~= written(rest) + tail);
        assert(fields(line) =~= fs.push(("pv"@, joined(moves, " "@))));
    }
}

/// The words of written fields are words, where their values are.
proof fn lemma_written_words(fs: Seq<(Seq<char>, Seq<char>)>)
    requires
        forall|i: int|
            0 <= i < fs.len() ==> is_key((#[trigger] fs[i]).0) && is_word(fs[i].1),
    ensures
        forall|i: int| 0 <= i < written(fs).len() ==> is_word(#[trigger] written(fs)[i]),
    decreases fs.len(),
{
    if fs.len() > 0 {
        let rest = fs.drop_first();
        assert forall|i: int| 0 <= i < rest.len() implies is_key((#[trigger] rest[i]).0) && is_word(
            rest[i].1,
        ) by {
            assert(rest[i] == fs[i + 1]);
        }
        lemma_written_words(rest);
        lemma_keywords_are_words();
        assert(is_key(fs[0].0) && is_word(fs[0].1));
        assert forall|i: int| 0 <= i < written(fs).len() implies is_word(
            #[trigger] written(fs)[i],
        ) by {
            if i >= 2 {
                assert(written(fs)[i] == written(rest)[i - 2]);
            }
        }
    }
}

/// The keywords are words.
proof fn lemma_keywords_are_words()
    ensures
        is_word("pv"@),
        forall|w: Seq<char>| is_key(w) ==> is_word(w),
{
    reveal_strlit("depth");
    reveal_strlit("cp");
    reveal_strlit("nps");
    reveal_strlit("nodes");
    reveal_strlit("time");
    reveal_strlit("mate");
    reveal_strlit("pv");
}

/// A line of an engine with given fields and a given PV, with one space between the words, says
/// for each keyword the last value that it was given, and the PV word for word.
pub proof fn law_info_of_written(fs: Seq<(Seq<char>, Seq<char>)>, moves: Seq<Seq<char>>)
    requires
        forall|i: int|
            0 <= i < fs.len() ==> is_key((#[trigger] fs[i]).0) && is_word(fs[i].1),
        moves.len() > 0,
        forall|i: int| 0 <= i < moves.len() ==> is_word(#[trigger] moves[i]),
    ensures
        info_of(joined(written(fs) + (seq!["pv"@] + moves), seq![' '])) == (InfoView {
            depth: number_or_zero(value_of(fs, "depth"@, seq![])),
            score: value_of(fs, "cp"@, seq![]),
            nps: value_of(fs, "nps"@, seq![]),
            nodes: value_of(fs, "nodes"@, seq![]),
            time_ms: value_of(fs, "time"@, seq![]),
            mate: value_of(fs, "mate"@, seq![]),
            pv: joined(moves, " "@),
        }),
{
    let line = written(fs) + (seq!["pv"@] + moves);
    lemma_written_words(fs);
    lemma_keywords_are_words();
    lemma_keywords_differ();
    assert forall|i: int| 0 <= i < line.len() implies is_word(#[trigger] line[i]) by {
        let n = written(fs).len();
        if i < n {
            assert(line[i] == written(fs)[i]);
        } else if i > n {
            assert(line[i] == moves[i - n - 1]);
        }
    }
    law_words_of_joined(line);
    law_fields_of_written(fs, moves);
    let all = fs.push(("pv"@, joined(moves, " "@)));
    assert(all.drop_last() =~= fs);
}

/// What an engine says last of a keyword holds.
pub proof fn law_last_field_wins(
    fs: Seq<(Seq<char>, Seq<char>)>,
    key: Seq<char>,
    value: Seq<char>,
    otherwise: Seq<char>,
)
    ensures
        value_of(fs.push((key, value)), key, otherwise) == value,
{
}

/// A line without any of the keywords says nothing.
pub proof fn law_no_keyword_no_info(line: Seq<char>)
    requires
        forall|i: int|
            0 <= i < words(line).len() ==> !is_key(#[trigger] words(line)[i]) && words(line)[i]
                != "pv"@,
    ensures
        info_of(line) == no_info(),
{
    lemma_no_keyword(words(line));
}

proof fn lemma_no_keyword(line: Seq<Seq<char>>)
    requires
        forall|i: int| 0 <= i < line.len() ==> !is_key(#[trigger] line[i]) && line[i] != "pv"@,
    ensures
        fields(line) == Seq::<(Seq<char>, Seq<char>)>::empty(),
    decreases line.len(),
{
    if line.len() >= 2 {
        assert(!is_key(line[0]) && line[0] != "pv"@);
        assert forall|i: int| 0 <= i < line.drop_first().len() implies !is_key(
            #[trigger] line.drop_first()[i],
        ) && line.drop_first()[i] != "pv"@ by {
            assert(line.drop_first()[i] == line[i + 1]);
        }
        lemma_no_keyword(line.drop_first());
    }
}

/// How far an analysis has come.
#[derive(Debug, PartialEq, Eq)]
pub struct Analysis {
    /// What the engine said last.
    pub info: InfoLine,
    /// The deepest search depth that the engine has named.
    pub ply: u32,
}

/// The model of an `Analysis`.
pub struct AnalysisView {
    pub info: InfoView,
    pub ply: u32,
}

impl View for Analysis {
    type V = AnalysisView;

    open spec fn view(&self) -> AnalysisView {
        AnalysisView { info: self.info@, ply: self.ply }
    }
}

/// What a line of an engine calls for.
#[derive(Debug, PartialEq, Eq)]
pub struct LineEffect {
    /// The depth to show as progress, if it is a new one.
    pub progress: Option<u32>,
    /// The engine has finished.
    pub finished: bool,
}

/// The line reports on the search.
pub open spec fn is_info(line: Seq<char>) -> bool {
    mentions(line, "info depth"@)
}

/// The line ends the search.
pub open spec fn is_best_move(line: Seq<char>) -> bool {
    mentions(line, "bestmove"@)
}

/// An analysis before the first line.
pub open spec fn no_analysis() -> AnalysisView {
    AnalysisView { info: no_info(), ply: 0 }
}

/// An analysis after one more line.
pub open spec fn analysed(v: AnalysisView, line: Seq<char>) -> AnalysisView {
    if is_info(line) {
        let info = info_of(line);
        AnalysisView {
            info,
            ply: if info.depth > v.ply {
                info.depth
            } else {
                v.ply
            },
        }
    } else {
        v
    }
}

/// The depth that a line shows as progress: one that is deeper than all before.
pub open spec fn progress(v: AnalysisView, line: Seq<char>) -> Option<u32> {
    if is_info(line) && info_of(line).depth > v.ply {
        Some(info_of(line).depth)
    } else {
        None
    }
}

impl Analysis {
    /// Starts an analysis.
    pub fn new() -> (r: Analysis)
        ensures
            r@ == no_analysis(),
    {
        Analysis { info: InfoLine::default(), ply: 0 }
    }

    /// Takes in a line of the engine.
    pub fn on_line(&mut self, line: &str) -> (r: LineEffect)
        ensures
            final(self)@ == analysed(old(self)@, line@),
            r.progress == progress(old(self)@, line@),
            r.finished == is_best_move(line@),
            mentions(line@, "info depth"@) ==> {
                &&& final(self).info@ == info_of(line@)
                &&& final(self).ply == (if info_of(line@).depth > old(self).ply {
                    info_of(line@).depth
                } else {
                    old(self).ply
                })
            },
            !mentions(line@, "info depth"@) ==> *final(self) == *old(self),
            r.progress is Some <==> mentions(line@, "info depth"@) && info_of(line@).depth > old(
                self,
            ).ply,
            r.progress is Some ==> r.progress->0 == info_of(line@).depth,
            r.finished <==> mentions(line@, "bestmove"@),
    {
        let mut shown: Option<u32> = None;
        if contains(line, "info depth") {
            let info: InfoLine = parse_info(line);
            if info.depth > self.ply {
                shown = Some(info.depth);
                self.ply = info.depth;
            }
            self.info = info;
        }
        LineEffect { progress: shown, finished: contains(line, "bestmove") }
    }
}

/// An analysis after a sequence of lines.
pub open spec fn analysis_of(lines: Seq<Seq<char>>) -> AnalysisView
    decreases lines.len(),
{
    if lines.len() == 0 {
        no_analysis()
    } else {
        analysed(analysis_of(lines.drop_last()), lines.last())
    }
}

/// The depths that a sequence of lines shows as progress.
pub open spec fn progress_of(lines: Seq<Seq<char>>) -> Seq<u32>
    decreases lines.len(),
{
    if lines.len() == 0 {
        seq![]
    } else {
        match progress(analysis_of(lines.drop_last()), lines.last()) {
            Some(depth) => progress_of(lines.drop_last()).push(depth),
            None => progress_of(lines.drop_last()),
        }
    }
}

/// Progress only goes forward: each depth that is shown is deeper than the ones before, and the
/// last one is how far the analysis has come.
pub proof fn law_progress_increases(lines: Seq<Seq<char>>)
    ensures
        forall|i: int, j: int|
            0 <= i < j < progress_of(lines).len() ==> progress_of(lines)[i] < progress_of(lines)[j],
        progress_of(lines).len() == 0 ==> analysis_of(lines).ply == 0,
        progress_of(lines).len() > 0 ==> progress_of(lines).last() == analysis_of(lines).ply,
    decreases lines.len(),
{
    if lines.len() > 0 {
        let before = lines.drop_last();
        law_progress_increases(before);
        let old_shown = progress_of(before);
        if let Some(depth) = progress(analysis_of(before), lines.last()) {
            assert forall|i: int, j: int| 0 <= i < j < progress_of(lines).len() implies progress_of(
                lines,
            )[i] < progress_of(lines)[j] by {
                if j == old_shown.len() {
                    assert(old_shown[i] <= old_shown.last());
                }
            }
        }
    }
}

/// How far the analysis has come is the greatest depth of all lines that report on the search,
/// or 0.
pub proof fn law_ply_is_greatest_depth(lines: Seq<Seq<char>>)
    ensures
        forall|i: int|
            0 <= i < lines.len() && is_info(#[trigger] lines[i]) ==> info_of(lines[i]).depth
                <= analysis_of(lines).ply,
        analysis_of(lines).ply == 0 || exists|i: int|
            0 <= i < lines.len() && is_info(#[trigger] lines[i]) && info_of(lines[i]).depth
                == analysis_of(lines).ply,
    decreases lines.len(),
{
    if lines.len() > 0 {
        let before = lines.drop_last();
        law_ply_is_greatest_depth(before);
        assert forall|i: int| 0 <= i < lines.len() && is_info(#[trigger] lines[i]) implies info_of(
            lines[i],
        ).depth <= analysis_of(lines).ply by {
            if i < before.len() {
                assert(before[i] == lines[i]);
            }
        }
        if analysis_of(lines).ply != 0 {
            if analysis_of(lines).ply == analysis_of(before).ply {
                let i = choose|i: int|
                    0 <= i < before.len() && is_info(#[trigger] before[i]) && info_of(
                        before[i],
                    ).depth == analysis_of(before).ply;
                assert(lines[i] == before[i]);
            } else {
                assert(lines[lines.len() - 1] == lines.last());
            }
        }
    }
}

/// The information of an analysis is that of the last line that reports on the search, and none
/// where no line does.
#[verifier::rlimit(50)]
pub proof fn law_last_info_line_wins(lines: Seq<Seq<char>>)
    ensures
        forall|i: int|
            0 <= i < lines.len() && is_info(#[trigger] lines[i]) && (forall|j: int|
                i < j < lines.len() ==> !is_info(#[trigger] lines[j])) ==> analysis_of(lines).info
                == info_of(lines[i]),
        (forall|i: int| 0 <= i < lines.len() ==> !is_info(#[trigger] lines[i])) ==> analysis_of(
            lines,
        ) == no_analysis(),
    decreases lines.len(),
{
    if lines.len() > 0 {
        let before = lines.drop_last();
        let n = before.len() as int;
        law_last_info_line_wins(before);
        assert(lines[n] == lines.last());
        assert forall|i: int|
            0 <= i < lines.len() && is_info(#[trigger] lines[i]) && (forall|j: int|
                i < j < lines.len() ==> !is_info(#[trigger] lines[j])) implies analysis_of(
            lines,
        ).info == info_of(lines[i]) by {
            if i < n {
                assert(!is_info(lines[n]));
                assert(before[i] == lines[i]);
                assert forall|j: int| i < j < n implies !is_info(#[trigger] before[j]) by {
                    assert(before[j] == lines[j]);
                }
            }
        }
        if forall|i: int| 0 <= i < lines.len() ==> !is_info(#[trigger] lines[i]) {
            assert(!is_info(lines[n]));
            assert forall|i: int| 0 <= i < before.len() implies !is_info(#[trigger] before[i]) by {
                assert(before[i] == lines[i]);
            }
        }
    }
}

/// What an engine has said of itself so far.
#[derive(Debug, PartialEq, Eq)]
pub struct Handshake {
    pub engine_name: String,
}

/// The name of an engine after one more line of its greeting.
pub open spec fn named(name: Seq<char>, line: Seq<char>) -> Seq<char> {
    if mentions(line, "id name"@) {
        trimmed(without(line, "id name"@))
    } else {
        name
    }
}

/// The line ends the greeting.
pub open spec fn is_uci_ok(line: Seq<char>) -> bool {
    mentions(line, "uciok"@)
}

impl Handshake {
    /// Starts with an engine that is not known.
    pub fn new() -> (r: Handshake)
        ensures
            r.engine_name@ == "unknown"@,
    {
        Handshake { engine_name: "unknown".to_owned() }
    }

    /// Takes in a line of the greeting; tells whether it was the last one.
    pub fn on_line(&mut self, line: &str) -> (r: bool)
        ensures
            final(self).engine_name@ == named(old(self).engine_name@, line@),
            r == is_uci_ok(line@),
            mentions(line@, "id name"@) ==> final(self).engine_name@ == trimmed(
                without(line@, "id name"@),
            ),
            !mentions(line@, "id name"@) ==> final(self).engine_name@ == old(self).engine_name@,
            r <==> mentions(line@, "uciok"@),
    {
        if contains(line, "id name") {
            proof {
                reveal_strlit("id name");
            }
            let rest: String = remove_all(line, "id name");
            self.engine_name = trim(rest.as_str());
        }
        contains(line, "uciok")
    }
}

/// The name after the lines of a greeting, which ends with the first line that says so.
pub open spec fn greeted(name: Seq<char>, lines: Seq<Seq<char>>) -> Seq<char>
    decreases lines.len(),
{
    if lines.len() == 0 {
        name
    } else if is_uci_ok(lines[0]) {
        named(name, lines[0])
    } else {
        greeted(named(name, lines[0]), lines.drop_first())
    }
}

/// Nothing after the line that ends the greeting changes the name.
pub proof fn law_greeting_ends(name: Seq<char>, lines: Seq<Seq<char>>, more: Seq<Seq<char>>)
    requires
        exists|i: int| 0 <= i < lines.len() && is_uci_ok(#[trigger] lines[i]),
    ensures
        greeted(name, lines + more) == greeted(name, lines),
    decreases lines.len(),
{
    assert((lines + more)[0] == lines[0]);
    if !is_uci_ok(lines[0]) {
        let i = choose|i: int| 0 <= i < lines.len() && is_uci_ok(#[trigger] lines[i]);
        assert(lines.drop_first()[i - 1] == lines[i]);
        assert((lines + more).drop_first() =~= lines.drop_first() + more);
        law_greeting_ends(named(name, lines[0]), lines.drop_first(), more);
    }
}

/// A text without a pattern stays as it is when the pattern is removed.
proof fn lemma_without_nothing(s: Seq<char>, pattern: Seq<char>)
    requires
        !mentions(s, pattern),
    ensures
        without(s, pattern) == s,
{
    law_without_nothing(s, pattern);
}

/// An engine that says `id name`, a space and its name is known by that name.
pub proof fn law_engine_name(before: Seq<char>, name: Seq<char>)
    requires
        !mentions(name, "id name"@),
        trimmed(name) == name,
    ensures
        named(before, "id name "@ + name) == name,
{
    reveal_strlit("id name");
    reveal_strlit("id name ");
    let key = "id name"@;
    let line = "id name "@ + name;
    assert(line.subrange(0, 7) =~= key);
    assert(stands_at(line, 0, key));
    let rest = line.skip(7);
    assert(rest =~= seq![' '] + name);
    if mentions(rest, key) {
        let i = choose|i: int| stands_at(rest, i, key);
        if i == 0 {
            assert(rest.subrange(0, 7)[0] == ' ');
            assert(key[0] == 'i');
        } else {
            assert(rest.subrange(i, i + 7) =~= name.subrange(i - 1, i - 1 + 7));
            assert(stands_at(name, i - 1, key));
        }
    }
    lemma_without_nothing(rest, key);
    assert(rest.drop_first() =~= name);
    assert(trimmed_start(rest) == trimmed_start(name));
}

/// An engine that never says its name stays `unknown`.
pub proof fn law_unnamed_engine(lines: Seq<Seq<char>>, name: Seq<char>)
    requires
        forall|i: int| 0 <= i < lines.len() ==> !mentions(#[trigger] lines[i], "id name"@),
    ensures
        greeted(name, lines) == name,
    decreases lines.len(),
{
    if lines.len() > 0 {
        assert(!mentions(lines[0], "id name"@));
        assert forall|i: int| 0 <= i < lines.drop_first().len() implies !mentions(
            #[trigger] lines.drop_first()[i],
            "id name"@,
        ) by {
            assert(lines.drop_first()[i] == lines[i + 1]);
        }
        law_unnamed_engine(lines.drop_first(), name);
    }
}

/// Tells whether the line says that the engine is ready.
pub fn is_ready(line: &str) -> (r: bool)
    ensures
        r == (trimmed(line@) == "readyok"@),
{
    same(trim(line).as_str(), "readyok")
}

/// What the user of the worker has chosen.
#[derive(Debug, PartialEq, Eq)]
pub struct Prefs {
    /// The program of the engine.
    pub engine: String,
    /// The depth to search to.
    pub depth: u32,
    /// The number of threads, as the engine is to be told.
    pub threads: Option<String>,
    /// Who contributes the results.
    pub user_id: String,
    /// Where the Syzygy tablebases are, as the engine is to be told.
    pub syzygy: Option<String>,
}

/// The model of `Prefs`.
pub struct PrefsView {
    pub engine: Seq<char>,
    pub depth: u32,
    pub threads: Option<Seq<char>>,
    pub user_id: Seq<char>,
    pub syzygy: Option<Seq<char>>,
}

impl View for Prefs {
    type V = PrefsView;

    open spec fn view(&self) -> PrefsView {
        PrefsView {
            engine: self.engine@,
            depth: self.depth,
            threads: opt_text(self.threads),
            user_id: self.user_id@,
            syzygy: opt_text(self.syzygy),
        }
    }
}

/// A setting of the engine: the command that makes it, and what the user is told.
#[derive(Debug, PartialEq, Eq)]
pub struct Setting {
    pub command: String,
    pub notice: String,
}

/// The command that sets an option of the engine.
pub open spec fn set_option(name: Seq<char>, value: Seq<char>) -> Seq<char> {
    "setoption name "@ + name + " value "@ + value + "\n"@
}

/// A setting, by its command and its notice.
pub open spec fn setting(name: Seq<char>, label: Seq<char>, value: Seq<char>) -> (
    Seq<char>,
    Seq<char>,
) {
    (set_option(name, value), "🛠️  Setting "@ + label + " to "@ + value)
}

/// The settings that the preferences call for, in order: the threads where they are given, and
/// the tablebases where their path is given and not empty.
pub open spec fn settings_of(
    threads: Option<Seq<char>>,
    syzygy: Option<Seq<char>>,
) -> Seq<(Seq<char>, Seq<char>)> {
    (match threads {
        Some(t) => seq![setting("Threads"@, "threads"@, t)],
        None => seq![],
    }) + (match syzygy {
        Some(path) => if path.len() > 0 {
            seq![setting("SyzygyPath"@, "SyzygyPath"@, path)]
        } else {
            seq![]
        },
        None => seq![],
    })
}

/// The model of settings: the command and the notice of each.
pub open spec fn settings_view(v: Seq<Setting>) -> Seq<(Seq<char>, Seq<char>)> {
    v.map_values(|s: Setting| (s.command@, s.notice@))
}

fn make_setting(name: &str, label: &str, value: &str) -> (r: Setting)
    ensures
        (r.command@, r.notice@) == setting(name@, label@, value@),
{
    let mut command: String = "setoption name ".to_owned();
    command.append(name);
    command.append(" value ");
    command.append(value);
    command.append("\n");
    let mut notice: String = "🛠️  Setting ".to_owned();
    notice.append(label);
    notice.append(" to ");
    notice.append(value);
    Setting { command, notice }
}

/// The settings of the engine that the preferences call for.
pub fn settings(prefs: &Prefs) -> (r: Vec<Setting>)
    ensures
        settings_view(r@) == settings_of(prefs@.threads, prefs@.syzygy),
        prefs.threads matches Some(t) ==> {
            &&& r@.len() > 0
            &&& r@[0].command@ == "setoption name "@ + "Threads"@ + " value "@ + t@ + "\n"@
            &&& r@[0].notice@ == "🛠️  Setting "@ + "threads"@ + " to "@ + t@
        },
        prefs.syzygy matches Some(path) ==> path@.len() > 0 ==> {
            &&& r@.len() > 0
            &&& r@.last().command@ == "setoption name "@ + "SyzygyPath"@ + " value "@ + path@
                + "\n"@
            &&& r@.last().notice@ == "🛠️  Setting "@ + "SyzygyPath"@ + " to "@ + path@
        },
        r@.len() == (if prefs.threads is Some {
            1int
        } else {
            0
        }) + (if prefs.syzygy is Some && prefs.syzygy->0@.len() > 0 {
            1int
        } else {
            0
        }),
{
    let mut out: Vec<Setting> = Vec::new();
    if let Some(t) = &prefs.threads {
        out.push(make_setting("Threads", "threads", t.as_str()));
    }
    let ghost first = settings_view(out@);
    assert(first =~= (match opt_text(prefs.threads) {
        Some(t) => seq![setting("Threads"@, "threads"@, t)],
        None => seq![],
    }));
    if let Some(path) = &prefs.syzygy {
        if !path.as_str().is_empty() {
            out.push(make_setting("SyzygyPath", "SyzygyPath", path.as_str()));
            assert(settings_view(out@) =~= first.push(
                setting("SyzygyPath"@, "SyzygyPath"@, path@),
            ));
        }
    }
    out
}

/// The commands that start the analysis of a position: a new game, the position and the search.
pub open spec fn search_of(fen: Seq<char>, depth: u32) -> Seq<Seq<char>> {
    seq![
        "ucinewgame\n"@,
        "position fen "@ + fen + "\n"@,
        "go depth "@ + decimal(depth as nat) + "\n"@,
    ]
}

/// Writes the commands that start the analysis of a position.
pub fn search_commands(fen: &str, depth: u32) -> (r: Vec<String>)
    ensures
        texts(r@) == search_of(fen@, depth),
        r@.len() == 3,
        r@[0]@ == "ucinewgame\n"@,
        r@[1]@ == "position fen "@ + fen@ + "\n"@,
        r@[2]@ == "go depth "@ + decimal(depth as nat) + "\n"@,
{
    let mut position: String = "position fen ".to_owned();
    position.append(fen);
    position.append("\n");
    let mut search: String = "go depth ".to_owned();
    search.append(number(depth as u64).as_str());
    search.append("\n");
    let mut out: Vec<String> = Vec::new();
    out.push("ucinewgame\n".to_owned());
    out.push(position);
    out.push(search);
    assert(texts(out@) =~= search_of(fen@, depth));
    out
}

/// The keywords behind which one word is a value.
pub open spec fn takes_next(word: Seq<char>) -> bool {
    word == "depth"@ || word == "cp"@ || word == "nps"@ || word == "nodes"@ || word == "time"@
        || word == "mate"@
}

/// The word at index `i` of a line is not claimed by a keyword before it: it is the first one,
/// or behind a word that is not claimed and is no keyword, or behind the value of a keyword.
pub open spec fn is_free(line: Seq<Seq<char>>, i: int) -> bool
    decreases i,
{
    if i <= 0 {
        i == 0
    } else {
        ||| is_free(line, i - 1) && !takes_next(line[i - 1]) && line[i - 1] != "pv"@
        ||| i >= 2 && is_free(line, i - 2) && takes_next(line[i - 2])
    }
}

/// The word at index `i` of a line stands in keyword position: it is a keyword, is not claimed
/// by another, and something is behind it.
pub open spec fn is_keyword_at(line: Seq<Seq<char>>, i: int) -> bool {
    &&& 0 <= i < line.len() - 1
    &&& is_free(line, i)
    &&& takes_next(line[i]) || line[i] == "pv"@
}

/// `value` is the word behind the last `key` in keyword position of a line, and empty where there
/// is none.
#[verifier::opaque]
pub open spec fn is_last_value(line: Seq<Seq<char>>, key: Seq<char>, value: Seq<char>) -> bool {
    &&& (forall|i: int| #[trigger] is_keyword_at(line, i) ==> line[i] != key) ==> value.len() == 0
    &&& forall|i: int|
        (#[trigger] is_keyword_at(line, i) && line[i] == key && forall|j: int|
            j > i && #[trigger] is_keyword_at(line, j) ==> line[j] != key) ==> value == line[i + 1]
}

/// The word behind a keyword that is not claimed is claimed.
proof fn lemma_claimed(line: Seq<Seq<char>>, i: int)
    requires
        is_free(line, i),
        takes_next(line[i]) || line[i] == "pv"@,
    ensures
        !is_free(line, i + 1),
    decreases i,
{
    lemma_keywords_differ();
    if i >= 1 && is_free(line, i - 1) && takes_next(line[i - 1]) {
        lemma_claimed(line, i - 1);
    }
}

/// Every word behind a `pv` that is not claimed is claimed.
proof fn lemma_claimed_by_pv(line: Seq<Seq<char>>, i: int, j: int)
    requires
        is_free(line, i),
        line[i] == "pv"@,
        i < j,
    ensures
        !is_free(line, j),
    decreases j,
{
    lemma_keywords_differ();
    lemma_claimed(line, i);
    if j > i + 1 {
        lemma_claimed_by_pv(line, i, j - 1);
        if j > i + 2 {
            lemma_claimed_by_pv(line, i, j - 2);
        }
    }
}

/// The value of a keyword, read from a word on that is not claimed.
proof fn lemma_value_from(
    line: Seq<Seq<char>>,
    from: int,
    key: Seq<char>,
    otherwise: Seq<char>,
)
    requires
        0 <= from <= line.len(),
        is_free(line, from),
        takes_next(key),
    ensures
        ({
            let value = value_of(fields(line.skip(from)), key, otherwise);
            &&& (forall|i: int| i >= from && #[trigger] is_keyword_at(line, i) ==> line[i] != key)
                ==> value == otherwise
            &&& forall|i: int|
                (i >= from && #[trigger] is_keyword_at(line, i) && line[i] == key && forall|j: int|
                    j > i && #[trigger] is_keyword_at(line, j) ==> line[j] != key) ==> value
                    == line[i + 1]
        }),
    decreases line.len() - from,
{
    lemma_keywords_differ();
    let rest = line.skip(from);
    let value = value_of(fields(rest), key, otherwise);
    let none: Seq<(Seq<char>, Seq<char>)> = seq![];
    if rest.len() < 2 {
        assert(value == otherwise);
    } else if rest[0] == "pv"@ {
        let field = ("pv"@, joined(rest.drop_first(), " "@));
        assert(fields(rest) =~= seq![field] + none);
        lemma_value_of_front(field, none, key, otherwise);
        assert(value == otherwise);
        assert forall|i: int| i > from implies !is_free(line, i) by {
            lemma_claimed_by_pv(line, from, i);
        }
    } else if is_key(rest[0]) {
        assert(is_keyword_at(line, from));
        lemma_claimed(line, from);
        assert(is_free(line, from + 2));
        assert(rest.skip(2) =~= line.skip(from + 2));
        let then = if rest[0] == key {
            rest[1]
        } else {
            otherwise
        };
        lemma_value_of_front((rest[0], rest[1]), fields(rest.skip(2)), key, otherwise);
        lemma_value_from(line, from + 2, key, then);
        assert(!is_keyword_at(line, from + 1));
        assert(value == value_of(fields(line.skip(from + 2)), key, then));
        if forall|i: int| i >= from && #[trigger] is_keyword_at(line, i) ==> line[i] != key {
            assert(line[from] != key);
        }
        assert forall|i: int|
            (i >= from && #[trigger] is_keyword_at(line, i) && line[i] == key && forall|j: int|
                j > i && #[trigger] is_keyword_at(line, j) ==> line[j] != key) implies value
            == line[i + 1] by {
            if i == from {
                assert(forall|j: int|
                    j >= from + 2 && #[trigger] is_keyword_at(line, j) ==> line[j] != key);
            } else {
                assert(i != from + 1);
            }
        }
    } else {
        assert(is_free(line, from + 1));
        assert(rest.drop_first() =~= line.skip(from + 1));
        lemma_value_from(line, from + 1, key, otherwise);
        assert(!is_keyword_at(line, from));
    }
}

/// The value of a keyword in a whole line.
proof fn lemma_last_value(line: Seq<Seq<char>>, key: Seq<char>)
    requires
        takes_next(key),
    ensures
        is_last_value(line, key, value_of(fields(line), key, seq![])),
{
    reveal(is_last_value);
    assert(line.skip(0) =~= line);
    lemma_value_from(line, 0, key, seq![]);
}

/// The PV, read from a word on that is not claimed.
proof fn lemma_pv_from(line: Seq<Seq<char>>, from: int)
    requires
        0 <= from <= line.len(),
        is_free(line, from),
    ensures
        ({
            let value = value_of(fields(line.skip(from)), "pv"@, seq![]);
            &&& (forall|i: int|
                i >= from && #[trigger] is_keyword_at(line, i) ==> line[i] != "pv"@) ==> value
                == Seq::<char>::empty()
            &&& forall|i: int|
                i >= from && #[trigger] is_keyword_at(line, i) && line[i] == "pv"@ ==> value
                    == joined(line.skip(i + 1), " "@)
        }),
    decreases line.len() - from,
{
    lemma_keywords_differ();
    let rest = line.skip(from);
    let value = value_of(fields(rest), "pv"@, seq![]);
    let none: Seq<(Seq<char>, Seq<char>)> = seq![];
    if rest.len() < 2 {
    } else if rest[0] == "pv"@ {
        assert(is_keyword_at(line, from));
        let field = ("pv"@, joined(rest.drop_first(), " "@));
        assert(fields(rest) =~= seq![field] + none);
        lemma_value_of_front(field, none, "pv"@, seq![]);
        assert(rest.drop_first() =~= line.skip(from + 1));
        assert forall|i: int| i > from implies !is_free(line, i) by {
            lemma_claimed_by_pv(line, from, i);
        }
    } else if is_key(rest[0]) {
        lemma_claimed(line, from);
        assert(is_free(line, from + 2));
        assert(rest.skip(2) =~= line.skip(from + 2));
        lemma_value_of_front((rest[0], rest[1]), fields(rest.skip(2)), "pv"@, seq![]);
        lemma_pv_from(line, from + 2);
        assert(!is_keyword_at(line, from + 1));
    } else {
        assert(is_free(line, from + 1));
        assert(rest.drop_first() =~= line.skip(from + 1));
        lemma_pv_from(line, from + 1);
    }
}

/// What any line says: of each keyword, the word behind the last one in keyword position; and of
/// the PV, every word behind `pv` in keyword position, with one space between neighbours. What
/// the line does not say is empty, and a depth that is no number is 0.
pub proof fn law_info_of_any_line(line: Seq<char>)
    ensures
        exists|depth: Seq<char>| #[trigger]
            is_last_value(words(line), "depth"@, depth) && info_of(line).depth == (
            match parsed_u32(depth) {
                Some(n) => n,
                None => 0u32,
            }),
        is_last_value(words(line), "cp"@, info_of(line).score),
        is_last_value(words(line), "nps"@, info_of(line).nps),
        is_last_value(words(line), "nodes"@, info_of(line).nodes),
        is_last_value(words(line), "time"@, info_of(line).time_ms),
        is_last_value(words(line), "mate"@, info_of(line).mate),
        (forall|i: int| #[trigger] is_keyword_at(words(line), i) ==> words(line)[i] != "pv"@)
            ==> info_of(line).pv.len() == 0,
        forall|i: int| #[trigger]
            is_keyword_at(words(line), i) && words(line)[i] == "pv"@ ==> info_of(line).pv == joined(
                words(line).skip(i + 1),
                " "@,
            ),
{
    let all = words(line);
    assert(all.skip(0) =~= all);
    lemma_last_value(all, "depth"@);
    lemma_last_value(all, "cp"@);
    lemma_last_value(all, "nps"@);
    lemma_last_value(all, "nodes"@);
    lemma_last_value(all, "time"@);
    lemma_last_value(all, "mate"@);
    lemma_pv_from(all, 0);
}

/// Words are claimed by what is before them alone.
proof fn lemma_free_of_prefix(head: Seq<Seq<char>>, tail: Seq<Seq<char>>, i: int)
    requires
        i <= head.len(),
    ensures
        is_free(head + tail, i) == is_free(head, i),
    decreases i,
{
    if i > 0 {
        lemma_free_of_prefix(head, tail, i - 1);
        assert((head + tail)[i - 1] == head[i - 1]);
        if i > 1 {
            lemma_free_of_prefix(head, tail, i - 2);
            assert((head + tail)[i - 2] == head[i - 2]);
        }
    }
}

/// Where no `pv` is before it, a word is claimed only by the word just before it.
proof fn lemma_free_without_pv(line: Seq<Seq<char>>, i: int)
    requires
        0 <= i <= line.len(),
        forall|k: int| 0 <= k < i ==> line[k] != "pv"@,
    ensures
        is_free(line, i) || (i > 0 && is_free(line, i - 1) && takes_next(line[i - 1])),
    decreases i,
{
    if i > 0 {
        lemma_free_without_pv(line, i - 1);
        assert(line[i - 1] != "pv"@);
    }
}

/// The keywords in keyword position before a `pv` that is not claimed are those of what is
/// before it, and there are none behind it.
proof fn lemma_keywords_before_pv(head: Seq<Seq<char>>, tail: Seq<Seq<char>>, i: int)
    requires
        tail.len() > 1,
        tail[0] == "pv"@,
        is_free(head + tail, head.len() as int),
        forall|k: int| 0 <= k < head.len() ==> #[trigger] head[k] != "pv"@,
        head.len() > 0 ==> !(is_free(head, head.len() - 1) && takes_next(head.last())),
        i != head.len(),
    ensures
        is_keyword_at(head + tail, i) == is_keyword_at(head, i),
{
    let all = head + tail;
    let p = head.len() as int;
    assert(all[p] == "pv"@);
    if i > p {
        lemma_claimed_by_pv(all, p, i);
    } else if 0 <= i {
        lemma_free_of_prefix(head, tail, i);
        assert(all[i] == head[i]);
    }
}

/// A line as engines write it, with any words before `pv`: the PV is every word behind it, and
/// each other value is that of the last keyword in keyword position before it.
pub proof fn law_pv_is_read_whole(line: Seq<char>, head: Seq<Seq<char>>, moves: Seq<Seq<char>>)
    requires
        words(line) == head + seq!["pv"@] + moves,
        moves.len() > 0,
        forall|i: int| 0 <= i < head.len() ==> #[trigger] head[i] != "pv"@,
        head.len() > 0 ==> !(is_free(head, head.len() - 1) && takes_next(head.last())),
    ensures
        info_of(line).pv == joined(moves, " "@),
        exists|depth: Seq<char>| #[trigger]
            is_last_value(head, "depth"@, depth) && info_of(line).depth == (match parsed_u32(
                depth,
            ) {
                Some(n) => n,
                None => 0u32,
            }),
        is_last_value(head, "cp"@, info_of(line).score),
        is_last_value(head, "nps"@, info_of(line).nps),
        is_last_value(head, "nodes"@, info_of(line).nodes),
        is_last_value(head, "time"@, info_of(line).time_ms),
        is_last_value(head, "mate"@, info_of(line).mate),
{
    let all = words(line);
    let tail = seq!["pv"@] + moves;
    let p = head.len() as int;
    assert(all =~= head + tail);
    assert(all[p] == "pv"@);
    lemma_keywords_differ();
    lemma_free_of_prefix(head, tail, p);
    if p > 0 {
        lemma_free_of_prefix(head, tail, p - 1);
        lemma_free_without_pv(head, p);
    }
    assert(is_keyword_at(all, p));
    assert(all.skip(p + 1) =~= moves);
    law_info_of_any_line(line);
    assert forall|i: int| i != p implies #[trigger] is_keyword_at(all, i) == is_keyword_at(
        head,
        i,
    ) by {
        lemma_keywords_before_pv(head, tail, i);
    }
    assert forall|i: int| #[trigger] is_keyword_at(head, i) implies all[i] == head[i] && all[i + 1]
        == head[i + 1] by {}
    assert(!is_keyword_at(head, p));
    let depth = choose|depth: Seq<char>| #[trigger]
        is_last_value(all, "depth"@, depth) && info_of(line).depth == (match parsed_u32(depth) {
            Some(n) => n,
            None => 0u32,
        });
    lemma_same_last_value(all, head, p, "depth"@, depth);
    lemma_same_last_value(all, head, p, "cp"@, info_of(line).score);
    lemma_same_last_value(all, head, p, "nps"@, info_of(line).nps);
    lemma_same_last_value(all, head, p, "nodes"@, info_of(line).nodes);
    lemma_same_last_value(all, head, p, "time"@, info_of(line).time_ms);
    lemma_same_last_value(all, head, p, "mate"@, info_of(line).mate);
}

proof fn lemma_same_last_value(
    all: Seq<Seq<char>>,
    head: Seq<Seq<char>>,
    p: int,
    key: Seq<char>,
    value: Seq<char>,
)
    requires
        is_last_value(all, key, value),
        all[p] != key,
        !is_keyword_at(head, p),
        forall|i: int|
            i != p ==> #[trigger] is_keyword_at(all, i) == is_keyword_at(head, i),
        forall|i: int| #[trigger]
            is_keyword_at(head, i) ==> all[i] == head[i] && all[i + 1] == head[i + 1],
    ensures
        is_last_value(head, key, value),
{
    reveal(is_last_value);
    if forall|i: int| #[trigger] is_keyword_at(head, i) ==> head[i] != key {
        assert forall|i: int| #[trigger] is_keyword_at(all, i) implies all[i] != key by {
            if i != p {
                assert(is_keyword_at(head, i));
            }
        }
    }
    assert forall|i: int|
        (#[trigger] is_keyword_at(head, i) && head[i] == key && forall|j: int|
            j > i && #[trigger] is_keyword_at(head, j) ==> head[j] != key) implies value == head[i
        + 1] by {
        assert(is_keyword_at(all, i));
        assert forall|j: int| j > i && #[trigger] is_keyword_at(all, j) implies all[j] != key by {
            if j != p {
                assert(is_keyword_at(head, j));
            }
        }
    }
}

/// A line is told by the texts that stand in it.
pub proof fn law_marks_of_lines(line: Seq<char>)
    ensures
        is_info(line) <==> mentions(line, "info depth"@),
        is_best_move(line) <==> mentions(line, "bestmove"@),
        is_uci_ok(line) <==> mentions(line, "uciok"@),
{
}

/// Every line in which `info depth` stands is taken in, whatever else it says, and no other line
/// changes anything; a deeper search, and only that, is shown.
pub proof fn law_every_info_line_is_taken_in(v: AnalysisView, line: Seq<char>)
    ensures
        mentions(line, "info depth"@) ==> {
            &&& analysed(v, line).info == info_of(line)
            &&& analysed(v, line).ply >= v.ply
            &&& analysed(v, line).ply >= info_of(line).depth
            &&& analysed(v, line).ply == v.ply || analysed(v, line).ply == info_of(line).depth
            &&& progress(v, line) is Some <==> info_of(line).depth > v.ply
            &&& progress(v, line) is Some ==> progress(v, line)->0 == info_of(line).depth
        },
        !mentions(line, "info depth"@) ==> analysed(v, line) == v && progress(v, line) is None,
        no_analysis().ply == 0,
        no_analysis().info.depth == 0,
        no_analysis().info.score.len() == 0,
        no_analysis().info.nps.len() == 0,
        no_analysis().info.nodes.len() == 0,
        no_analysis().info.time_ms.len() == 0,
        no_analysis().info.mate.len() == 0,
        no_analysis().info.pv.len() == 0,
{
}

/// A line with `id name` gives the name, which is what is left of the line without it and
/// without the white space at the ends; no other line does.
pub proof fn law_name_from_line(name: Seq<char>, line: Seq<char>)
    ensures
        mentions(line, "id name"@) ==> named(name, line) == trimmed(without(line, "id name"@)),
        !mentions(line, "id name"@) ==> named(name, line) == name,
{
}

/// The preferences are handed to the engine as they are: the threads where they are given, and
/// the path of the tablebases where it is given and not empty, in this order and nothing else.
pub proof fn law_settings_are_handed_on(threads: Option<Seq<char>>, syzygy: Option<Seq<char>>)
    ensures
        ({
            let all = settings_of(threads, syzygy);
            let t = threads->0;
            let path = syzygy->0;
            let with_path = syzygy is Some && path.len() > 0;
            &&& threads is None && !with_path ==> all.len() == 0
            &&& threads is Some && with_path ==> all.len() == 2
            &&& threads is Some != with_path ==> all.len() == 1
            &&& threads is Some ==> all[0].0 == "setoption name "@ + "Threads"@ + " value "@ + t
                + "\n"@
            &&& threads is Some ==> all[0].1 == "🛠️  Setting "@ + "threads"@ + " to "@ + t
            &&& with_path ==> all.last().0 == "setoption name "@ + "SyzygyPath"@ + " value "@ + path
                + "\n"@
            &&& with_path ==> all.last().1 == "🛠️  Setting "@ + "SyzygyPath"@ + " to "@ + path
        }),
{
}

/// An engine is given the whole position: the second of three commands is `position fen `, every
/// character of the FEN text and a line feed. The third is `go depth `, digits that read back as
/// the depth, and a line feed.
pub proof fn law_search_is_of_the_position(fen: Seq<char>, depth: u32)
    ensures
        ({
            let all = search_of(fen, depth);
            let n = all[1].len() as int;
            let m = all[2].len() as int;
            &&& all.len() == 3
            &&& all[0] == "ucinewgame\n"@
            &&& n == fen.len() + 14
            &&& all[1].take(13) == "position fen "@
            &&& all[1].subrange(13, n - 1) == fen
            &&& all[1][n - 1] == '\n'
            &&& m > 10
            &&& all[2].take(9) == "go depth "@
            &&& forall|i: int| 9 <= i < m - 1 ==> '0' <= #[trigger] all[2][i] <= '9'
            &&& all[2][9] == '0' ==> m == 11
            &&& parsed_u32(all[2].subrange(9, m - 1)) == Some(depth)
            &&& all[2][m - 1] == '\n'
        }),
{
    reveal_strlit("position fen ");
    reveal_strlit("go depth ");
    reveal_strlit("\n");
    let all = search_of(fen, depth);
    let d = decimal(depth as nat);
    let n = all[1].len() as int;
    let m = all[2].len() as int;
    law_decimal(depth as nat);
    law_parse_of_decimal(depth);
    assert(all[1].take(13) =~= "position fen "@);
    assert(all[1].subrange(13, n - 1) =~= fen);
    assert(all[2].take(9) =~= "go depth "@);
    assert(all[2].subrange(9, m - 1) =~= d);
    assert forall|i: int| 9 <= i < m - 1 implies '0' <= #[trigger] all[2][i] <= '9' by {
        assert(all[2][i] == d[i - 9]);
    }
    assert(all[2][9] == d[0]);
}

/// The models of what an engine says and of the preferences hold each field as it is.
pub proof fn law_models_leave_nothing_out(info: InfoLine, analysis: Analysis, prefs: Prefs)
    ensures
        info@.depth == info.depth,
        info@.score == info.score@,
        info@.nps == info.nps@,
        info@.nodes == info.nodes@,
        info@.time_ms == info.time_ms@,
        info@.mate == info.mate@,
        info@.pv == info.pv@,
        analysis@.info == analysis.info@,
        analysis@.ply == analysis.ply,
        prefs@.engine == prefs.engine@,
        prefs@.depth == prefs.depth,
        prefs@.user_id == prefs.user_id@,
        prefs@.threads == (match prefs.threads {
            Some(t) => Some(t@),
            None => None,
        }),
        prefs@.syzygy == (match prefs.syzygy {
            Some(path) => Some(path@),
            None => None,
        }),
{
}

} // verus!
