//! JSON text for requirement expressions. Strings are encoded by the
//! `write-json` crate; what it writes is stated here and not proved.

use vstd::prelude::*;
use vstd::string::*;
use crate::expr::{Expr, ExprView, expr_views};
use crate::text::{decimal_digits, push_decimal};

verus! {

/// The upper-case hexadecimal digit of a number below sixteen.
pub open spec fn hex_digit(d: int) -> char {
    if d < 10 {
        ('0' as u8 + d) as char
    } else {
        ('A' as u8 + (d - 10)) as char
    }
}

/// How one character stands inside a JSON string: a quote and a backslash
/// behind a backslash; newline, carriage return and tab as `\n`, `\r`,
/// `\t`; the other control characters below 0xA0 as `\u00` and two
/// hexadecimal digits; every other character as itself.
pub open spec fn json_escape(c: char) -> Seq<char> {
    let u = c as u32;
    if c == '\\' || c == '"' {
        seq!['\\', c]
    } else if c == '\n' {
        seq!['\\', 'n']
    } else if c == '\r' {
        seq!['\\', 'r']
    } else if c == '\t' {
        seq!['\\', 't']
    } else if u <= 0x1F || (0x7F <= u <= 0x9F) {
        seq!['\\', 'u', '0', '0', hex_digit(u as int / 16), hex_digit(u as int % 16)]
    } else {
        seq![c]
    }
}

/// The characters of `s`, each as it stands inside a JSON string.
pub open spec fn json_escaped(s: Seq<char>) -> Seq<char>
    decreases s.len(),
{
    if s.len() == 0 {
        Seq::empty()
    } else {
        json_escaped(s.drop_last()) + json_escape(s.last())
    }
}

/// `s` as a JSON string: between double quotes, its characters escaped.
pub open spec fn json_string(s: Seq<char>) -> Seq<char> {
    seq!['"'] + json_escaped(s) + seq!['"']
}

/// `write_json::string`: appends `value` to `out` as a JSON string.
#[verifier::external_body]
fn push_json_string(out: &mut String, value: &str)
    ensures
        final(out)@ == old(out)@ + json_string(value@),
{
    write_json::string(out, value);
}

/// The text of a key and the colon behind it.
pub open spec fn json_key(key: Seq<char>) -> Seq<char> {
    json_string(key) + seq![':']
}

/// The JSON object of an expression: `{"all":[..]}`, `{"any":[..]}`,
/// `{"course":{"topic":..,"number":..}}` with the number as a string, or
/// `{}` for nothing.
pub open spec fn expr_json(e: ExprView) -> Seq<char>
    decreases e, 1int,
{
    match e {
        ExprView::All(list) => seq!['{'] + json_key("all"@) + seq!['['] + exprs_json(list, 0)
            + seq![']', '}'],
        ExprView::Any(list) => seq!['{'] + json_key("any"@) + seq!['['] + exprs_json(list, 0)
            + seq![']', '}'],
        ExprView::Course(c) => seq!['{'] + json_key("course"@) + seq!['{'] + json_key("topic"@)
            + json_string(c.topic) + seq![','] + json_key("number"@) + json_string(
            decimal_digits(c.number),
        ) + seq!['}', '}'],
        ExprView::Empty => seq!['{', '}'],
    }
}

/// The objects of the members of `list` from `from` on, with a comma
/// before each but the first of the list.
pub open spec fn exprs_json(list: Seq<ExprView>, from: int) -> Seq<char>
    decreases list, list.len() - from,
{
    if from < 0 || from >= list.len() {
        Seq::empty()
    } else {
        (if from == 0 {
            Seq::<char>::empty()
        } else {
            seq![',']
        }) + expr_json(list[from]) + exprs_json(list, from + 1)
    }
}

/// Appends the objects of the members of `list`.
fn push_exprs_json(out: &mut String, list: &Vec<Expr>)
    ensures
        final(out)@ == old(out)@ + exprs_json(expr_views(list@), 0),
    decreases list, list.len(),
{
    let ghost views = expr_views(list@);
    let mut i: usize = 0;
    assert(out@ + exprs_json(views, 0) =~= old(out)@ + exprs_json(views, 0));
    while i < list.len()
        invariant
            i <= list.len(),
            views == expr_views(list@),
            out@ + exprs_json(views, i as int) == old(out)@ + exprs_json(views, 0),
        decreases list.len() - i,
    {
        let ghost before = out@;
        if i > 0 {
            out.append(",");
            proof {
                reveal_strlit(",");
            }
        }
        let ghost mid = out@;
        push_expr_json(out, &list[i]);
        assert(views[i as int] == list@[i as int]@);
        assert(out@ + exprs_json(views, i + 1) =~= before + exprs_json(views, i as int)) by {
            assert(mid =~= before + (if i == 0 {
                Seq::<char>::empty()
            } else {
                seq![',']
            }));
        }
        i += 1;
    }
    assert(out@ + exprs_json(views, i as int) =~= out@);
}

/// Appends the object of `e`.
fn push_expr_json(out: &mut String, e: &Expr)
    ensures
        final(out)@ == old(out)@ + expr_json(e@),
    decreases e, 1int,
{
    proof {
        reveal_strlit("{");
        reveal_strlit("}");
        reveal_strlit("[");
        reveal_strlit("]");
        reveal_strlit(":");
        reveal_strlit(",");
    }
    out.append("{");
    match e {
        Expr::All(list) => {
            push_json_string(out, "all");
            out.append(":");
            out.append("[");
            push_exprs_json(out, list);
            out.append("]");
        },
        Expr::Any(list) => {
            push_json_string(out, "any");
            out.append(":");
            out.append("[");
            push_exprs_json(out, list);
            out.append("]");
        },
        Expr::Course(course) => {
            push_json_string(out, "course");
            out.append(":");
            out.append("{");
            push_json_string(out, "topic");
            out.append(":");
            push_json_string(out, course.topic.as_str());
            out.append(",");
            push_json_string(out, "number");
            out.append(":");
            let mut digits = String::new();
            push_decimal(&mut digits, course.number);
            assert(digits@ =~= decimal_digits(course.number as nat));
            push_json_string(out, digits.as_str());
            out.append("}");
        },
        Expr::Empty => {},
    }
    out.append("}");
    assert(out@ =~= old(out)@ + expr_json(e@));
}

impl Expr {
    /// The expression as a JSON object.
    pub fn to_json(&self) -> (r: String)
        ensures
            r@ == expr_json(self@),
    {
        let mut out = String::new();
        push_expr_json(&mut out, self);
        assert(out@ =~= expr_json(self@));
        out
    }
}

/// What the catalogue says of a course beside its description.
#[derive(Debug)]
pub struct CourseMeta {
    pub faculty: String,
    pub subject: String,
    pub catalog: String,
    pub course: String,
    pub coursetitle: String,
    pub credits: String,
    pub career: String,
    pub term: String,
    pub sections: String,
    pub sections_online: String,
}

/// What a `CourseMeta` stands for.
pub struct CourseMetaView {
    pub faculty: Seq<char>,
    pub subject: Seq<char>,
    pub catalog: Seq<char>,
    pub course: Seq<char>,
    pub coursetitle: Seq<char>,
    pub credits: Seq<char>,
    pub career: Seq<char>,
    pub term: Seq<char>,
    pub sections: Seq<char>,
    pub sections_online: Seq<char>,
}

impl View for CourseMeta {
    type V = CourseMetaView;

    open spec fn view(&self) -> CourseMetaView {
        CourseMetaView {
            faculty: self.faculty@,
            subject: self.subject@,
            catalog: self.catalog@,
            course: self.course@,
            coursetitle: self.coursetitle@,
            credits: self.credits@,
            career: self.career@,
            term: self.term@,
            sections: self.sections@,
            sections_online: self.sections_online@,
        }
    }
}

/// A member of an object whose value is a string: the key, a colon, the
/// value.
pub open spec fn json_member(key: Seq<char>, value: Seq<char>) -> Seq<char> {
    json_key(key) + json_string(value)
}

/// The JSON object of a `CourseMeta`: its ten members in the order of the
/// fields, each a string.
pub open spec fn meta_json(meta: CourseMetaView) -> Seq<char> {
    seq!['{'] + json_member("faculty"@, meta.faculty) + seq![','] + json_member(
        "subject"@,
        meta.subject,
    ) + seq![','] + json_member("catalog"@, meta.catalog) + seq![','] + json_member(
        "course"@,
        meta.course,
    ) + seq![','] + json_member("coursetitle"@, meta.coursetitle) + seq![','] + json_member(
        "credits"@,
        meta.credits,
    ) + seq![','] + json_member("career"@, meta.career) + seq![','] + json_member(
        "term"@,
        meta.term,
    ) + seq![','] + json_member("sections"@, meta.sections) + seq![','] + json_member(
        "sections_online"@,
        meta.sections_online,
    ) + seq!['}']
}

/// The description as a JSON value: a string, or `null` where there is
/// none.
pub open spec fn desc_json(desc: Option<Seq<char>>) -> Seq<char> {
    match desc {
        Some(text) => json_string(text),
        None => "null"@,
    }
}

/// The JSON object of a course: the members `meta`, `desc`, `prereqs` and
/// `coreqs`, in this order.
pub open spec fn course_json_text(
    meta: CourseMetaView,
    desc: Option<Seq<char>>,
    prereqs: ExprView,
    coreqs: ExprView,
) -> Seq<char> {
    seq!['{'] + json_key("meta"@) + meta_json(meta) + seq![','] + json_key("desc"@) + desc_json(
        desc,
    ) + seq![','] + json_key("prereqs"@) + expr_json(prereqs) + seq![','] + json_key("coreqs"@)
        + expr_json(coreqs) + seq!['}']
}

/// Appends a key and the colon behind it.
fn push_key(out: &mut String, key: &str)
    ensures
        final(out)@ == old(out)@ + json_key(key@),
{
    push_json_string(out, key);
    out.append(":");
    proof {
        reveal_strlit(":");
    }
    assert(out@ =~= old(out)@ + json_key(key@));
}

/// Appends a member whose value is a string.
fn push_member(out: &mut String, key: &str, value: &str)
    ensures
        final(out)@ == old(out)@ + json_member(key@, value@),
{
    push_key(out, key);
    push_json_string(out, value);
    assert(out@ =~= old(out)@ + json_member(key@, value@));
}

/// Appends a comma and a member whose value is a string.
fn push_next_member(out: &mut String, key: &str, value: &str, Ghost(start): Ghost<Seq<char>>, Ghost(
    done,
): Ghost<Seq<char>>)
    requires
        old(out)@ == start + done,
    ensures
        final(out)@ == start + (done + seq![','] + json_member(key@, value@)),
{
    out.append(",");
    proof {
        reveal_strlit(",");
    }
    push_member(out, key, value);
    assert(out@ =~= start + (done + seq![','] + json_member(key@, value@)));
}

/// Appends the object of a `CourseMeta`.
fn push_meta_json(out: &mut String, meta: &CourseMeta)
    ensures
        final(out)@ == old(out)@ + meta_json(meta@),
{
    proof {
        reveal_strlit("{");
        reveal_strlit("}");
    }
    let ghost start = out@;
    let ghost m = meta@;
    out.append("{");
    push_member(out, "faculty", meta.faculty.as_str());
    let ghost d1 = seq!['{'] + json_member("faculty"@, m.faculty);
    assert(out@ =~= start + d1);
    push_next_member(out, "subject", meta.subject.as_str(), Ghost(start), Ghost(d1));
    let ghost d2 = d1 + seq![','] + json_member("subject"@, m.subject);
    push_next_member(out, "catalog", meta.catalog.as_str(), Ghost(start), Ghost(d2));
    let ghost d3 = d2 + seq![','] + json_member("catalog"@, m.catalog);
    push_next_member(out, "course", meta.course.as_str(), Ghost(start), Ghost(d3));
    let ghost d4 = d3 + seq![','] + json_member("course"@, m.course);
    push_next_member(out, "coursetitle", meta.coursetitle.as_str(), Ghost(start), Ghost(d4));
    let ghost d5 = d4 + seq![','] + json_member("coursetitle"@, m.coursetitle);
    push_next_member(out, "credits", meta.credits.as_str(), Ghost(start), Ghost(d5));
    let ghost d6 = d5 + seq![','] + json_member("credits"@, m.credits);
    push_next_member(out, "career", meta.career.as_str(), Ghost(start), Ghost(d6));
    let ghost d7 = d6 + seq![','] + json_member("career"@, m.career);
    push_next_member(out, "term", meta.term.as_str(), Ghost(start), Ghost(d7));
    let ghost d8 = d7 + seq![','] + json_member("term"@, m.term);
    push_next_member(out, "sections", meta.sections.as_str(), Ghost(start), Ghost(d8));
    let ghost d9 = d8 + seq![','] + json_member("sections"@, m.sections);
    push_next_member(out, "sections_online", meta.sections_online.as_str(), Ghost(start), Ghost(d9));
    let ghost d10 = d9 + seq![','] + json_member("sections_online"@, m.sections_online);
    out.append("}");
    assert(out@ =~= start + (d10 + seq!['}']));
    assert(d10 + seq!['}'] == meta_json(m));
}

/// The views of an optional description.
pub open spec fn desc_view(desc: Option<&str>) -> Option<Seq<char>> {
    match desc {
        Some(text) => Some(text@),
        None => None,
    }
}

/// The record of a course as one JSON object: what the catalogue says of
/// it, its description, and the prerequisites and corequisites that the
/// description states.
pub fn course_json(meta: &CourseMeta, desc: Option<&str>, prereqs: &Expr, coreqs: &Expr) -> (r:
    String)
    ensures
        r@ == course_json_text(meta@, desc_view(desc), prereqs@, coreqs@),
{
    proof {
        reveal_strlit("{");
        reveal_strlit("}");
        reveal_strlit(",");
    }
    let mut out = String::new();
    out.append("{");
    push_key(&mut out, "meta");
    push_meta_json(&mut out, meta);
    let ghost d1 = seq!['{'] + json_key("meta"@) + meta_json(meta@);
    assert(out@ =~= d1);
    out.append(",");
    push_key(&mut out, "desc");
    match desc {
        Some(text) => {
            push_json_string(&mut out, text);
        },
        None => {
            out.append("null");
        },
    }
    let ghost d2 = d1 + seq![','] + json_key("desc"@) + desc_json(desc_view(desc));
    assert(out@ =~= d2);
    out.append(",");
    push_key(&mut out, "prereqs");
    push_expr_json(&mut out, prereqs);
    let ghost d3 = d2 + seq![','] + json_key("prereqs"@) + expr_json(prereqs@);
    assert(out@ =~= d3);
    out.append(",");
    push_key(&mut out, "coreqs");
    push_expr_json(&mut out, coreqs);
    out.append("}");
    let ghost d4 = d3 + seq![','] + json_key("coreqs"@) + expr_json(coreqs@) + seq!['}'];
    assert(out@ =~= d4);
    assert(d4 == course_json_text(meta@, desc_view(desc), prereqs@, coreqs@));
    out
}

} // verus!
