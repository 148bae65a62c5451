use vstd::prelude::*;
use colored::Colorize;
use crate::text::{plain_seq, is_blank, kept_lines, kept_pieces, split_nl, drop_final_cr};

verus! {

/// What `strip_ansi_escapes::strip_str` returns for a given text: the text
/// with its ANSI escape sequences removed, a function of the text alone.
pub uninterp spec fn strip_of(s: Seq<char>) -> Seq<char>;

/// One loggable line: no embedded newline, not blank, and no final carriage
/// return, so that a line-splitting write keeps it whole and unchanged.
pub open spec fn single_line(l: Seq<char>) -> bool {
    &&& forall|i: int| 0 <= i < l.len() ==> #[trigger] l[i] != '\n'
    &&& !is_blank(l)
    &&& (l.len() > 0 ==> l.last() != '\r')
}

/// A single loggable line passes through line splitting as itself.
pub proof fn lemma_kept_single(l: Seq<char>)
    requires
        single_line(l),
    ensures
        kept_lines(l) == seq![l],
{
    lemma_split_no_newline(l);
    assert(!is_blank(l));
    assert(l.len() > 0) by {
        if l.len() == 0 {
            assert(is_blank(l));
        }
    }
    assert(drop_final_cr(l) == l);
    let ps = seq![l];
    assert(ps.len() == 1);
    assert(ps.last() == l);
    assert(ps.drop_last() =~~= Seq::<Seq<char>>::empty());
    assert(kept_pieces(Seq::<Seq<char>>::empty()) =~~= Seq::<Seq<char>>::empty());
    assert(kept_pieces(ps) == kept_pieces(ps.drop_last()).push(drop_final_cr(ps.last())));
    assert(kept_pieces(ps) =~~= seq![l]);
    assert(kept_lines(l) == kept_pieces(split_nl(l)));
    assert(split_nl(l) == ps);
    assert(kept_lines(l) =~~= seq![l]);
}

proof fn lemma_split_no_newline(l: Seq<char>)
    requires
        forall|i: int| 0 <= i < l.len() ==> #[trigger] l[i] != '\n',
    ensures
        split_nl(l) == seq![l],
    decreases l.len(),
{
    if l.len() == 0 {
        assert(split_nl(l) =~~= seq![l]);
    } else {
        lemma_split_no_newline(l.drop_last());
        assert(split_nl(l) =~~= seq![l.drop_last().push(l.last())]);
        assert(l.drop_last().push(l.last()) =~= l);
        assert(seq![l.drop_last().push(l.last())] =~~= seq![l]);
    }
}

/// Relies on `strip_ansi_escapes::strip_str`: it removes ANSI escape
/// sequences, keeps printable characters unchanged, and so is the identity on
/// plain printable text.
#[verifier::external_body]
pub(crate) fn strip_line(s: &str) -> (r: String)
    ensures
        r@ == strip_of(s@),
        plain_seq(s@) ==> r@ == s@,
{
    strip_ansi_escapes::strip_str(s)
}

/// Relies on colored's `Colorize::white` and `Colorize::bold`: each either
/// returns its text unchanged or wraps it in an ANSI SGR escape prefix and the
/// reset suffix, which `strip_ansi_escapes::strip_str` removes again.
#[verifier::external_body]
pub(crate) fn bold_white(s: &str) -> (r: String)
    ensures
        plain_seq(s@) ==> strip_of(r@) == s@,
        plain_seq(s@) && !is_blank(s@) ==> single_line(r@),
{
    format!("{}", s.white().bold())
}

/// Relies on colored's `Colorize::red`: it either returns its text unchanged
/// or wraps it in an ANSI SGR escape prefix and the reset suffix, which
/// `strip_ansi_escapes::strip_str` removes again.
#[verifier::external_body]
pub(crate) fn red_line(s: &str) -> (r: String)
    ensures
        plain_seq(s@) ==> strip_of(r@) == s@,
        plain_seq(s@) && !is_blank(s@) ==> single_line(r@),
{
    format!("{}", s.red())
}

/// Relies on colored's `Colorize::cyan`: it either returns its text unchanged
/// or wraps it in an ANSI SGR escape prefix and the reset suffix, which
/// `strip_ansi_escapes::strip_str` removes again.
#[verifier::external_body]
pub(crate) fn cyan_line(s: &str) -> (r: String)
    ensures
        plain_seq(s@) ==> strip_of(r@) == s@,
        plain_seq(s@) && !is_blank(s@) ==> single_line(r@),
{
    format!("{}", s.cyan())
}

/// A framework header line, `| ` then the framework's name, with both parts
/// cyan on the console. Relies on colored's `Colorize::cyan` (it either
/// returns its text unchanged or wraps it in an ANSI SGR escape prefix and the
/// reset suffix) and on `strip_ansi_escapes::strip_str` removing exactly such
/// sequences.
#[verifier::external_body]
pub(crate) fn framework_header_styled(name: &str) -> (r: String)
    ensures
        plain_seq(name@) ==> strip_of(r@) == "| "@ + name@ && single_line(r@),
{
    format!("{} {}", "|".cyan(), name.cyan())
}

/// One summary line for an outcome with errors: the lead column and type
/// column cyan, the status red, the tail plain. Relies on colored's
/// `Colorize::cyan` and `Colorize::red` (each either returns its text
/// unchanged or wraps it in an ANSI SGR escape prefix and the reset suffix)
/// and on `strip_ansi_escapes::strip_str` removing exactly such sequences.
#[verifier::external_body]
pub(crate) fn outcome_line_error_styled(lead: &str, type_col: &str, status: &str, tail: &str) -> (r:
    String)
    ensures
        plain_seq(lead@) && plain_seq(type_col@) && plain_seq(status@) && plain_seq(tail@)
            && !is_blank(lead@) ==> strip_of(r@) == lead@ + type_col@ + ": "@ + status@ + tail@
            && single_line(r@),
{
    format!("{}{}: {}{}", lead.cyan(), type_col.cyan(), status.red(), tail)
}

/// One summary line for an outcome with warnings and no errors; as the error
/// line, with the status yellow. Relies on colored's `Colorize::cyan` and
/// `Colorize::yellow` and on `strip_ansi_escapes::strip_str`, as above.
#[verifier::external_body]
pub(crate) fn outcome_line_warn_styled(lead: &str, type_col: &str, status: &str, tail: &str) -> (r:
    String)
    ensures
        plain_seq(lead@) && plain_seq(type_col@) && plain_seq(status@) && plain_seq(tail@)
            && !is_blank(lead@) ==> strip_of(r@) == lead@ + type_col@ + ": "@ + status@ + tail@
            && single_line(r@),
{
    format!("{}{}: {}{}", lead.cyan(), type_col.cyan(), status.yellow(), tail)
}

/// One summary line for a passing outcome; as the error line, with the status
/// green and no tail. Relies on colored's `Colorize::cyan` and
/// `Colorize::green` and on `strip_ansi_escapes::strip_str`, as above.
#[verifier::external_body]
pub(crate) fn outcome_line_pass_styled(lead: &str, type_col: &str, status: &str) -> (r: String)
    ensures
        plain_seq(lead@) && plain_seq(type_col@) && plain_seq(status@) && !is_blank(lead@)
            ==> strip_of(r@) == lead@ + type_col@ + ": "@ + status@ && single_line(r@),
{
    format!("{}{}: {}", lead.cyan(), type_col.cyan(), status.green())
}

} // verus!
