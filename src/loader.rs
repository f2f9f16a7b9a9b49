//! The loader: from source text to a table of named sections.
use vstd::prelude::*;
use crate::value::{Value, ValueView};
use crate::machine::{Instruction, InstrView, Op, Section, SectionView, main_name, section_view, copy_code, program_view, code_view};
use crate::syntax::{find_spec, find_char, slice_chars, trim_spec, trim_char, word_is, matches_word, parse_usize_spec, parse_usize, unescape, unescape_chars, lines_spec, split_lines};
use crate::text::{string_from, chars_of};

verus! {

/// Why a line of source text could not be decoded.
#[derive(Clone, Copy, Debug, PartialEq, Eq, Structural)]
pub enum ParseError {
    MissingOperand,
    InvalidLiteral,
    UnknownInstruction,
}

/// A load failure and the line (counted from 1) where it arose.
#[derive(Clone, Copy, Debug, PartialEq, Eq, Structural)]
pub struct LoadError {
    pub kind: ParseError,
    pub line: usize,
}

/// The mnemonics of the opcode table.
#[derive(Clone, Copy, Debug, PartialEq, Eq, Structural)]
pub enum Mnemonic {
    Push,
    Jump,
    IfJmp,
    Plain(Op),
}

/// The opcode that the mnemonic `m` names, ignoring ASCII case.
pub open spec fn mnemonic_spec(m: Seq<char>) -> Option<Mnemonic> {
    if word_is(m, seq!['p', 'u', 's', 'h']) {
        Some(Mnemonic::Push)
    } else if word_is(m, seq!['j', 'u', 'm', 'p']) {
        Some(Mnemonic::Jump)
    } else if word_is(m, seq!['i', 'f', 'j', 'm', 'p']) {
        Some(Mnemonic::IfJmp)
    } else if word_is(m, seq!['e', 'q']) {
        Some(Mnemonic::Plain(Op::Eq))
    } else if word_is(m, seq!['n', 'e']) {
        Some(Mnemonic::Plain(Op::Ne))
    } else if word_is(m, seq!['a', 'n', 'd']) {
        Some(Mnemonic::Plain(Op::And))
    } else if word_is(m, seq!['o', 'r']) {
        Some(Mnemonic::Plain(Op::Or))
    } else if word_is(m, seq!['n', 'o', 't']) {
        Some(Mnemonic::Plain(Op::Not))
    } else if word_is(m, seq!['a', 'd', 'd']) {
        Some(Mnemonic::Plain(Op::Add))
    } else if word_is(m, seq!['s', 'u', 'b']) {
        Some(Mnemonic::Plain(Op::Sub))
    } else if word_is(m, seq!['m', 'u', 'l']) {
        Some(Mnemonic::Plain(Op::Mul))
    } else if word_is(m, seq!['d', 'i', 'v']) {
        Some(Mnemonic::Plain(Op::Div))
    } else if word_is(m, seq!['m', 'o', 'd']) {
        Some(Mnemonic::Plain(Op::Mod))
    } else if word_is(m, seq!['d', 'r', 'o', 'p']) {
        Some(Mnemonic::Plain(Op::Drop))
    } else if word_is(m, seq!['d', 'u', 'p']) {
        Some(Mnemonic::Plain(Op::Dup))
    } else if word_is(m, seq!['s', 'w', 'a', 'p']) {
        Some(Mnemonic::Plain(Op::Swap))
    } else if word_is(m, seq!['o', 'v', 'e', 'r']) {
        Some(Mnemonic::Plain(Op::Over))
    } else if word_is(m, seq!['r', 'o', 't']) {
        Some(Mnemonic::Plain(Op::Rot))
    } else if word_is(m, seq!['p', 'r', 'i', 'n', 't']) {
        Some(Mnemonic::Plain(Op::Print))
    } else if word_is(m, seq!['e', 'x', 'i', 't']) {
        Some(Mnemonic::Plain(Op::Exit))
    } else {
        None
    }
}

/// Looks up a mnemonic in the opcode table.
pub fn mnemonic_of(m: &Vec<char>) -> (r: Option<Mnemonic>)
    ensures
        r == mnemonic_spec(m@),
{
    let w = vec!['p', 'u', 's', 'h'];
    assert(w@ =~= seq!['p', 'u', 's', 'h']);
    if matches_word(m, &w) {
        return Some(Mnemonic::Push);
    }
    let w = vec!['j', 'u', 'm', 'p'];
    assert(w@ =~= seq!['j', 'u', 'm', 'p']);
    if matches_word(m, &w) {
        return Some(Mnemonic::Jump);
    }
    let w = vec!['i', 'f', 'j', 'm', 'p'];
    assert(w@ =~= seq!['i', 'f', 'j', 'm', 'p']);
    if matches_word(m, &w) {
        return Some(Mnemonic::IfJmp);
    }
    let w = vec!['e', 'q'];
    assert(w@ =~= seq!['e', 'q']);
    if matches_word(m, &w) {
        return Some(Mnemonic::Plain(Op::Eq));
    }
    let w = vec!['n', 'e'];
    assert(w@ =~= seq!['n', 'e']);
    if matches_word(m, &w) {
        return Some(Mnemonic::Plain(Op::Ne));
    }
    let w = vec!['a', 'n', 'd'];
    assert(w@ =~= seq!['a', 'n', 'd']);
    if matches_word(m, &w) {
        return Some(Mnemonic::Plain(Op::And));
    }
    let w = vec!['o', 'r'];
    assert(w@ =~= seq!['o', 'r']);
    if matches_word(m, &w) {
        return Some(Mnemonic::Plain(Op::Or));
    }
    let w = vec!['n', 'o', 't'];
    assert(w@ =~= seq!['n', 'o', 't']);
    if matches_word(m, &w) {
        return Some(Mnemonic::Plain(Op::Not));
    }
    let w = vec!['a', 'd', 'd'];
    assert(w@ =~= seq!['a', 'd', 'd']);
    if matches_word(m, &w) {
        return Some(Mnemonic::Plain(Op::Add));
    }
    let w = vec!['s', 'u', 'b'];
    assert(w@ =~= seq!['s', 'u', 'b']);
    if matches_word(m, &w) {
        return Some(Mnemonic::Plain(Op::Sub));
    }
    let w = vec!['m', 'u', 'l'];
    assert(w@ =~= seq!['m', 'u', 'l']);
    if matches_word(m, &w) {
        return Some(Mnemonic::Plain(Op::Mul));
    }
    let w = vec!['d', 'i', 'v'];
    assert(w@ =~= seq!['d', 'i', 'v']);
    if matches_word(m, &w) {
        return Some(Mnemonic::Plain(Op::Div));
    }
    let w = vec!['m', 'o', 'd'];
    assert(w@ =~= seq!['m', 'o', 'd']);
    if matches_word(m, &w) {
        return Some(Mnemonic::Plain(Op::Mod));
    }
    let w = vec!['d', 'r', 'o', 'p'];
    assert(w@ =~= seq!['d', 'r', 'o', 'p']);
    if matches_word(m, &w) {
        return Some(Mnemonic::Plain(Op::Drop));
    }
    let w = vec!['d', 'u', 'p'];
    assert(w@ =~= seq!['d', 'u', 'p']);
    if matches_word(m, &w) {
        return Some(Mnemonic::Plain(Op::Dup));
    }
    let w = vec!['s', 'w', 'a', 'p'];
    assert(w@ =~= seq!['s', 'w', 'a', 'p']);
    if matches_word(m, &w) {
        return Some(Mnemonic::Plain(Op::Swap));
    }
    let w = vec!['o', 'v', 'e', 'r'];
    assert(w@ =~= seq!['o', 'v', 'e', 'r']);
    if matches_word(m, &w) {
        return Some(Mnemonic::Plain(Op::Over));
    }
    let w = vec!['r', 'o', 't'];
    assert(w@ =~= seq!['r', 'o', 't']);
    if matches_word(m, &w) {
        return Some(Mnemonic::Plain(Op::Rot));
    }
    let w = vec!['p', 'r', 'i', 'n', 't'];
    assert(w@ =~= seq!['p', 'r', 'i', 'n', 't']);
    if matches_word(m, &w) {
        return Some(Mnemonic::Plain(Op::Print));
    }
    let w = vec!['e', 'x', 'i', 't'];
    assert(w@ =~= seq!['e', 'x', 'i', 't']);
    if matches_word(m, &w) {
        return Some(Mnemonic::Plain(Op::Exit));
    }
    None
}

/// `fl` agrees with every result that the float decoder `f` can return.
pub open spec fn decoder_model<F: Fn(String) -> Option<u64>>(
    f: F,
    fl: spec_fn(Seq<char>) -> Option<u64>,
) -> bool {
    forall|s: String, r: Option<u64>| #[trigger] f.ensures((s,), r) ==> fl(s@) == r
}

/// The float decoder `f` accepts every string.
pub open spec fn decoder_total<F: Fn(String) -> Option<u64>>(f: F) -> bool {
    forall|s: String| #[trigger] f.requires((s,))
}

/// A comment or blank line.
pub open spec fn is_skip(l: Seq<char>) -> bool {
    l.len() == 0 || l[0] == '/' || l[0] == '#'
}

/// A section header `::name:`.
pub open spec fn is_header(l: Seq<char>) -> bool {
    l.len() >= 2 && l[0] == ':' && l[1] == ':' && l.last() == ':'
}

/// The text before the first space.
pub open spec fn mnemonic_text(l: Seq<char>) -> Seq<char> {
    l.subrange(0, find_spec(l, ' ') as int)
}

/// The text after the first space, or nothing.
pub open spec fn operand_text(l: Seq<char>) -> Seq<char> {
    if find_spec(l, ' ') < l.len() {
        l.subrange(find_spec(l, ' ') as int + 1, l.len() as int)
    } else {
        Seq::empty()
    }
}

/// The literal of `push a`; `fl` decodes floating-point text.
pub open spec fn literal_spec(a: Seq<char>, fl: spec_fn(Seq<char>) -> Option<u64>) -> Result<ValueView, ParseError> {
    if a.len() > 0 && a[0] == '"' && a.last() == '"' {
        Ok(ValueView::Str(unescape(trim_spec(a, '"'))))
    } else if find_spec(a, '.') < a.len() {
        match fl(a) {
            Some(b) => Ok(ValueView::Float(b)),
            None => Err(ParseError::InvalidLiteral),
        }
    } else if a == seq!['t', 'r', 'u', 'e'] {
        Ok(ValueView::Bool(true))
    } else if a == seq!['f', 'a', 'l', 's', 'e'] {
        Ok(ValueView::Bool(false))
    } else {
        match parse_usize_spec(a) {
            Some(n) => Ok(ValueView::Int(n)),
            None => Err(ParseError::InvalidLiteral),
        }
    }
}

/// The instruction on the (non-comment, non-header) line `l`.
pub open spec fn decode_spec(l: Seq<char>, fl: spec_fn(Seq<char>) -> Option<u64>) -> Result<InstrView, ParseError> {
    let a = operand_text(l);
    match mnemonic_spec(mnemonic_text(l)) {
        None => Err(ParseError::UnknownInstruction),
        Some(Mnemonic::Push) => if a.len() == 0 {
            Err(ParseError::MissingOperand)
        } else {
            match literal_spec(a, fl) {
                Ok(v) => Ok(InstrView::Push(v)),
                Err(e) => Err(e),
            }
        },
        Some(Mnemonic::Jump) => if a.len() == 0 {
            Err(ParseError::MissingOperand)
        } else {
            Ok(InstrView::Jump(a))
        },
        Some(Mnemonic::IfJmp) => if a.len() == 0 {
            Err(ParseError::MissingOperand)
        } else {
            Ok(InstrView::IfJmp(a))
        },
        Some(Mnemonic::Plain(op)) => Ok(InstrView::Op(op)),
    }
}

/// The exec result `r` is what the spec result `s` describes.
pub open spec fn decoded<T: View>(s: Result<T::V, ParseError>, r: Result<T, ParseError>) -> bool {
    match s {
        Ok(v) => r is Ok && r->Ok_0@ == v,
        Err(e) => r == Err::<T, ParseError>(e),
    }
}

pub fn same_chars(a: &Vec<char>, w: &Vec<char>) -> (r: bool)
    ensures
        r == (a@ == w@),
{
    if a.len() != w.len() {
        return false;
    }
    let mut i: usize = 0;
    while i < a.len()
        invariant
            a@.len() == w@.len(),
            i <= a@.len(),
            forall|j: int| 0 <= j < i ==> a@[j] == w@[j],
        decreases a@.len() - i,
    {
        if a[i] != w[i] {
            return false;
        }
        i = i + 1;
    }
    assert(a@ =~= w@);
    true
}

/// Decodes the literal of a `push`; `f` decodes floating-point text into
/// binary64 bits.
pub fn decode_literal<F: Fn(String) -> Option<u64>>(a: &Vec<char>, f: &F) -> (r: Result<Value, ParseError>)
    requires
        decoder_total(*f),
    ensures
        forall|fl: spec_fn(Seq<char>) -> Option<u64>|
            decoder_model(*f, fl) ==> decoded(literal_spec(a@, fl), r),
{
    let n = a.len();
    if n > 0 && a[0] == '"' && a[n - 1] == '"' {
        let inner = trim_char(a, '"');
        let text = unescape_chars(&inner);
        return Ok(Value::Str(string_from(&text)));
    }
    if find_char(a, '.') < n {
        let s = string_from(a);
        assert(f.requires((s,)));
        return match f(s) {
            Some(b) => Ok(Value::Float(b)),
            None => Err(ParseError::InvalidLiteral),
        };
    }
    let t = vec!['t', 'r', 'u', 'e'];
    assert(t@ =~= seq!['t', 'r', 'u', 'e']);
    if same_chars(a, &t) {
        return Ok(Value::Bool(true));
    }
    let fw = vec!['f', 'a', 'l', 's', 'e'];
    assert(fw@ =~= seq!['f', 'a', 'l', 's', 'e']);
    if same_chars(a, &fw) {
        return Ok(Value::Bool(false));
    }
    match parse_usize(a) {
        Some(k) => Ok(Value::Int(k)),
        None => Err(ParseError::InvalidLiteral),
    }
}

/// Decodes an instruction line: a mnemonic, then after one space the operand.
pub fn decode_line<F: Fn(String) -> Option<u64>>(l: &Vec<char>, f: &F) -> (r: Result<Instruction, ParseError>)
    requires
        decoder_total(*f),
    ensures
        forall|fl: spec_fn(Seq<char>) -> Option<u64>|
            decoder_model(*f, fl) ==> decoded(decode_spec(l@, fl), r),
{
    let n = l.len();
    let sp = find_char(l, ' ');
    let m = slice_chars(l, 0, sp);
    let a = if sp < n { slice_chars(l, sp + 1, n) } else { Vec::new() };
    assert(a@ =~= operand_text(l@));
    match mnemonic_of(&m) {
        None => Err(ParseError::UnknownInstruction),
        Some(Mnemonic::Push) => {
            if a.len() == 0 {
                return Err(ParseError::MissingOperand);
            }
            match decode_literal(&a, f) {
                Ok(v) => Ok(Instruction::Push(v)),
                Err(e) => Err(e),
            }
        },
        Some(Mnemonic::Jump) => {
            if a.len() == 0 {
                return Err(ParseError::MissingOperand);
            }
            Ok(Instruction::Jump(string_from(&a)))
        },
        Some(Mnemonic::IfJmp) => {
            if a.len() == 0 {
                return Err(ParseError::MissingOperand);
            }
            Ok(Instruction::IfJmp(string_from(&a)))
        },
        Some(Mnemonic::Plain(op)) => Ok(Instruction::Op(op)),
    }
}

/// The loader between lines: the sections completed so far, the name of the
/// section being read (none before the first header), and its instructions.
pub struct LoadState {
    pub sections: Seq<SectionView>,
    pub current: Option<Seq<char>>,
    pub pending: Seq<InstrView>,
}

pub open spec fn initial_state() -> LoadState {
    LoadState { sections: Seq::empty(), current: None, pending: Seq::empty() }
}

/// The sections after the pending instructions, if any, are closed off as a
/// section; one read before any header is named `main`.
pub open spec fn flush(st: LoadState) -> Seq<SectionView> {
    if st.pending.len() == 0 {
        st.sections
    } else {
        st.sections.push(
            SectionView {
                name: match st.current {
                    Some(n) => n,
                    None => main_name(),
                },
                code: st.pending,
            },
        )
    }
}

/// The loader state after line `l`.
pub open spec fn load_step(st: LoadState, l: Seq<char>, fl: spec_fn(Seq<char>) -> Option<u64>) -> Result<LoadState, ParseError> {
    if is_skip(l) {
        Ok(st)
    } else if is_header(l) {
        Ok(LoadState { sections: flush(st), current: Some(trim_spec(l, ':')), pending: Seq::empty() })
    } else {
        match decode_spec(l, fl) {
            Ok(i) => Ok(LoadState { pending: st.pending.push(i), ..st }),
            Err(e) => Err(e),
        }
    }
}

/// The loader state after the first `n` lines, or the first error and the
/// index of its line.
pub open spec fn load_prefix(lines: Seq<Seq<char>>, n: nat, fl: spec_fn(Seq<char>) -> Option<u64>) -> Result<LoadState, (ParseError, int)>
    decreases n,
{
    if n == 0 {
        Ok(initial_state())
    } else {
        match load_prefix(lines, (n - 1) as nat, fl) {
            Ok(st) => match load_step(st, lines[n - 1], fl) {
                Ok(st2) => Ok(st2),
                Err(e) => Err((e, n - 1)),
            },
            Err(e) => Err(e),
        }
    }
}

/// Once a prefix of the lines fails, every longer prefix fails the same way.
proof fn lemma_error_sticks(lines: Seq<Seq<char>>, k: nat, n: nat, fl: spec_fn(Seq<char>) -> Option<u64>)
    requires
        k <= n,
        load_prefix(lines, k, fl) is Err,
    ensures
        load_prefix(lines, n, fl) == load_prefix(lines, k, fl),
    decreases n,
{
    if n > k {
        lemma_error_sticks(lines, k, (n - 1) as nat, fl);
    }
}

/// The section table that the lines give, or the first error and the index
/// of its line.
pub open spec fn load_spec(lines: Seq<Seq<char>>, fl: spec_fn(Seq<char>) -> Option<u64>) -> Result<Seq<SectionView>, (ParseError, int)> {
    match load_prefix(lines, lines.len(), fl) {
        Ok(st) => Ok(flush(st)),
        Err(e) => Err(e),
    }
}

/// The exec result `r` is what `load_spec` gives.
pub open spec fn load_post(s: Result<Seq<SectionView>, (ParseError, int)>, r: Result<Vec<Section>, LoadError>) -> bool {
    match s {
        Ok(p) => r is Ok && program_view(r->Ok_0@) == p,
        Err((k, i)) => r is Err && r->Err_0.kind == k && r->Err_0.line == i + 1,
    }
}

pub open spec fn lines_view(lines: Seq<Vec<char>>) -> Seq<Seq<char>> {
    lines.map_values(|l: Vec<char>| l@)
}

pub open spec fn state_view(sections: Seq<Section>, current: Option<String>, pending: Seq<Instruction>) -> LoadState {
    LoadState {
        sections: program_view(sections),
        current: match current {
            Some(n) => Some(n@),
            None => None,
        },
        pending: code_view(pending),
    }
}

fn close_section(sections: &mut Vec<Section>, current: &mut Option<String>, pending: &mut Vec<Instruction>)
    ensures
        program_view(final(sections)@) == flush(state_view(old(sections)@, *old(current), old(pending)@)),
        final(pending)@.len() == 0,
        old(pending)@.len() == 0 ==> *final(current) == *old(current),
{
    if pending.len() > 0 {
        let name = match current.take() {
            Some(n) => n,
            None => {
                let cs = vec!['m', 'a', 'i', 'n'];
                assert(cs@ =~= main_name());
                string_from(&cs)
            },
        };
        let code = copy_code(pending);
        pending.clear();
        let ghost old_sections = sections@;
        sections.push(Section { name, code });
        assert(program_view(sections@) =~= program_view(old_sections).push(section_view(sections@.last())));
    }
}

/// Loads a program from its lines; `f` decodes floating-point literals into
/// binary64 bits, `None` for text that is no number.
pub fn load_lines<F: Fn(String) -> Option<u64>>(lines: &Vec<Vec<char>>, f: &F) -> (r: Result<Vec<Section>, LoadError>)
    requires
        decoder_total(*f),
    ensures
        forall|fl: spec_fn(Seq<char>) -> Option<u64>|
            decoder_model(*f, fl) ==> load_post(load_spec(lines_view(lines@), fl), r),
{
    let ghost lv = lines_view(lines@);
    let mut sections: Vec<Section> = Vec::new();
    let mut current: Option<String> = None;
    let mut pending: Vec<Instruction> = Vec::new();
    assert(program_view(sections@) =~= Seq::<SectionView>::empty());
    assert(code_view(pending@) =~= Seq::<InstrView>::empty());
    let mut i: usize = 0;
    while i < lines.len()
        invariant
            decoder_total(*f),
            i <= lines@.len(),
            lv == lines_view(lines@),
            forall|fl: spec_fn(Seq<char>) -> Option<u64>|
                decoder_model(*f, fl) ==> load_prefix(lv, i as nat, fl) == Ok::<LoadState, (ParseError, int)>(
                    state_view(sections@, current, pending@)),
        decreases lines@.len() - i,
    {
        let l = &lines[i];
        let n = l.len();
        assert(lv[i as int] == l@);
        if n == 0 || l[0] == '/' || l[0] == '#' {
        } else if n >= 2 && l[0] == ':' && l[1] == ':' && l[n - 1] == ':' {
            close_section(&mut sections, &mut current, &mut pending);
            current = Some(string_from(&trim_char(l, ':')));
            assert(code_view(pending@) =~= Seq::<InstrView>::empty());
        } else {
            match decode_line(l, f) {
                Ok(ins) => {
                    let ghost old_pending = pending@;
                    pending.push(ins);
                    assert(code_view(pending@) =~= code_view(old_pending).push(pending@.last()@));
                },
                Err(e) => {
                    assert forall|fl: spec_fn(Seq<char>) -> Option<u64>| decoder_model(*f, fl) implies
                        load_spec(lv, fl) == Err::<Seq<SectionView>, (ParseError, int)>((e, i as int)) by {
                        assert(load_prefix(lv, (i + 1) as nat, fl) == Err::<LoadState, (ParseError, int)>((e, i as int)));
                        lemma_error_sticks(lv, (i + 1) as nat, lv.len(), fl);
                    }
                    return Err(LoadError { kind: e, line: i + 1 });
                },
            }
        }
        i = i + 1;
    }
    assert(lv.len() == lines@.len());
    close_section(&mut sections, &mut current, &mut pending);
    Ok(sections)
}

/// Loads a program from source text; `f` decodes floating-point literals
/// into binary64 bits, `None` for text that is no number.
pub fn load<F: Fn(String) -> Option<u64>>(source: &str, f: &F) -> (r: Result<Vec<Section>, LoadError>)
    requires
        decoder_total(*f),
    ensures
        forall|fl: spec_fn(Seq<char>) -> Option<u64>|
            decoder_model(*f, fl) ==> load_post(load_spec(lines_spec(source@), fl), r),
{
    let chars = chars_of(source);
    let lines = split_lines(&chars);
    assert(lines_view(lines@) =~= lines_spec(source@));
    load_lines(&lines, f)
}

} // verus!
