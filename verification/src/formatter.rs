//! Rendering the key journal as a console table, CSV or Markdown.

use vstd::prelude::*;

use crate::db::IssuedKey;
use crate::text::{bool_text, decimal_text, push_bool, push_i64};

verus! {

/// The layouts in which the journal can be rendered.
#[derive(Debug, Clone, Copy, PartialEq, Eq, Structural)]
pub enum Formatter {
    Console,
    Csv,
    Markdown,
}

impl Formatter {
    /// The header lines: column names, and for the table layouts a rule.
    /// The short form leaves out the `active` and `reason` columns.
    pub open spec fn header(self, short: bool) -> Seq<char> {
        match self {
            Formatter::Console => if short {
                "ID | User | Key | Hash  | Created At\n"@ + "---|------|-----|------|------------\n"@
            } else {
                "ID | User | Key | Hash | Active |  Reason  | Created At\n"@
                    + "---|------|-----|------|--------|----------|------------\n"@
            },
            Formatter::Csv => if short {
                "id,user, key, key_hash,created_at\n"@
            } else {
                "id,user, key, key_hash,active, reason, created_at\n"@
            },
            Formatter::Markdown => if short {
                "| ID | User | Key | Hash | Created At |\n|----|------|------|--------|------------|\n"@
            } else {
                "| ID | User | Key | Hash | Active| Reason | Created At |\n|----|------|------|--------|----------|------------|\n"@
            },
        }
    }

    /// What a row starts with.
    pub open spec fn row_open(self) -> Seq<char> {
        match self {
            Formatter::Markdown => "| "@,
            _ => ""@,
        }
    }

    /// What separates two cells of a row.
    pub open spec fn cell_sep(self) -> Seq<char> {
        match self {
            Formatter::Csv => ","@,
            _ => " | "@,
        }
    }

    /// What a row ends with.
    pub open spec fn row_close(self) -> Seq<char> {
        match self {
            Formatter::Markdown => " |\n"@,
            _ => "\n"@,
        }
    }

    /// The line of one journal entry: id, user, key, hash, (in the long form)
    /// active flag and reason, and creation time.
    pub open spec fn row(self, k: IssuedKey, short: bool) -> Seq<char> {
        let s = self.cell_sep();
        if short {
            self.row_lead(k) + k.created_at@ + self.row_close()
        } else {
            self.row_lead(k) + bool_text(k.active) + s + k.reason@ + s + k.created_at@ + self.row_close()
        }
    }

    /// The start of an entry's line, up to and including the separator after
    /// the hash.
    pub open spec fn row_lead(self, k: IssuedKey) -> Seq<char> {
        let s = self.cell_sep();
        self.row_open() + decimal_text(k.id as int) + s + k.user@ + s + k.key@ + s + k.key_hash@ + s
    }

    /// The lines of all entries, in order.
    pub open spec fn rows(self, keys: Seq<IssuedKey>, short: bool) -> Seq<char>
        decreases keys.len(),
    {
        if keys.len() == 0 {
            Seq::<char>::empty()
        } else {
            self.rows(keys.drop_last(), short) + self.row(keys.last(), short)
        }
    }

    /// The whole rendering: header, then one line per entry.
    pub open spec fn rendering(self, keys: Seq<IssuedKey>, short: bool) -> Seq<char> {
        self.header(short) + self.rows(keys, short)
    }

    /// Renders the entries in this layout.
    pub fn render(&self, keys: &[IssuedKey], short: bool) -> (r: String)
        ensures
            r@ == self.rendering(keys@, short),
    {
        match self {
            Formatter::Console => render_as_table(keys, short),
            Formatter::Csv => render_as_csv(keys, short),
            Formatter::Markdown => render_as_markdown(keys, short),
        }
    }
}

/// `text` stands in `line` starting at position `at`.
pub open spec fn field_at(line: Seq<char>, at: int, text: Seq<char>) -> bool {
    0 <= at && at + text.len() <= line.len() && line.subrange(at, at + text.len()) == text
}

/// When `pre + t` starts `line`, `t` stands in `line` right after `pre`,
/// and `pre` starts `line`.
proof fn lemma_piece(line: Seq<char>, pre: Seq<char>, t: Seq<char>)
    requires
        (pre + t).len() <= line.len(),
        line.take((pre + t).len() as int) == pre + t,
    ensures
        field_at(line, pre.len() as int, t),
        line.take(pre.len() as int) == pre,
{
    let x = pre + t;
    assert forall|i: int| 0 <= i < t.len() implies #[trigger] line.subrange(
        pre.len() as int,
        (pre.len() + t.len()) as int,
    )[i] == t[i] by {
        assert(line[pre.len() + i] == line.take(x.len() as int)[pre.len() + i]);
        assert(x[pre.len() + i] == t[i]);
    }
    assert(line.subrange(pre.len() as int, (pre.len() + t.len()) as int) =~= t);
    assert forall|i: int| 0 <= i < pre.len() implies #[trigger] line.take(pre.len() as int)[i] == pre[i] by {
        assert(line[i] == line.take(x.len() as int)[i]);
        assert(x[i] == pre[i]);
    }
    assert(line.take(pre.len() as int) =~= pre);
}

/// Law: an entry's line holds each of the entry's fields verbatim, whatever
/// their length, in order and separated by the layout's cell separator: the
/// row opening, the id in decimal, the user, the key and the hash, then in
/// the long form the active flag and the reason, and last the creation time
/// and the row's end.
pub proof fn lemma_row_holds_every_field(f: Formatter, k: IssuedKey, short: bool)
    ensures
        ({
            let line = f.row(k, short);
            let s = f.cell_sep();
            let id = decimal_text(k.id as int);
            let o_id = f.row_open().len() as int;
            let o_user = o_id + id.len() + s.len();
            let o_key = o_user + k.user@.len() + s.len();
            let o_hash = o_key + k.key@.len() + s.len();
            let o_rest = o_hash + k.key_hash@.len() + s.len();
            let o_created = if short {
                o_rest
            } else {
                o_rest + bool_text(k.active).len() + s.len() + k.reason@.len() + s.len()
            };
            &&& field_at(line, 0, f.row_open())
            &&& field_at(line, o_id, id)
            &&& field_at(line, o_id + id.len(), s)
            &&& field_at(line, o_user, k.user@)
            &&& field_at(line, o_user + k.user@.len(), s)
            &&& field_at(line, o_key, k.key@)
            &&& field_at(line, o_key + k.key@.len(), s)
            &&& field_at(line, o_hash, k.key_hash@)
            &&& field_at(line, o_hash + k.key_hash@.len(), s)
            &&& !short ==> field_at(line, o_rest, bool_text(k.active))
            &&& !short ==> field_at(line, o_rest + bool_text(k.active).len(), s)
            &&& !short ==> field_at(line, o_rest + bool_text(k.active).len() + s.len(), k.reason@)
            &&& !short ==> field_at(line, o_created - s.len(), s)
            &&& field_at(line, o_created, k.created_at@)
            &&& field_at(line, o_created + k.created_at@.len(), f.row_close())
            &&& line.len() == o_created + k.created_at@.len() + f.row_close().len()
        }),
{
    let s = f.cell_sep();
    let open = f.row_open();
    let close = f.row_close();
    let id = decimal_text(k.id as int);
    let line = f.row(k, short);
    let p1 = open + id;
    let p2 = p1 + s;
    let p3 = p2 + k.user@;
    let p4 = p3 + s;
    let p5 = p4 + k.key@;
    let p6 = p5 + s;
    let p7 = p6 + k.key_hash@;
    let p8 = p7 + s;
    assert(p8 == f.row_lead(k));
    let rest = if short {
        p8
    } else {
        p8 + bool_text(k.active) + s + k.reason@ + s
    };
    assert(line == rest + k.created_at@ + close);
    assert(line.take(line.len() as int) =~= line);
    lemma_piece(line, rest + k.created_at@, close);
    lemma_piece(line, rest, k.created_at@);
    if !short {
        let q1 = p8 + bool_text(k.active);
        let q2 = q1 + s;
        let q3 = q2 + k.reason@;
        lemma_piece(line, q3, s);
        lemma_piece(line, q2, k.reason@);
        lemma_piece(line, q1, s);
        lemma_piece(line, p8, bool_text(k.active));
    }
    lemma_piece(line, p7, s);
    lemma_piece(line, p6, k.key_hash@);
    lemma_piece(line, p5, s);
    lemma_piece(line, p4, k.key@);
    lemma_piece(line, p3, s);
    lemma_piece(line, p2, k.user@);
    lemma_piece(line, p1, s);
    lemma_piece(line, open, id);
    assert(open =~= Seq::<char>::empty() + open);
    lemma_piece(line, Seq::<char>::empty(), open);
}

/// The lines of two lists of entries are the lines of the first followed by
/// those of the second.
pub proof fn lemma_rows_concat(f: Formatter, a: Seq<IssuedKey>, b: Seq<IssuedKey>, short: bool)
    ensures
        f.rows(a + b, short) == f.rows(a, short) + f.rows(b, short),
    decreases b.len(),
{
    if b.len() == 0 {
        assert(a + b =~= a);
        assert(f.rows(a, short) + f.rows(b, short) =~= f.rows(a, short));
    } else {
        lemma_rows_concat(f, a, b.drop_last(), short);
        assert((a + b).drop_last() =~= a + b.drop_last());
        assert((a + b).last() == b.last());
        assert(f.rows(a + b, short) =~= f.rows(a, short) + f.rows(b.drop_last(), short) + f.row(
            b.last(),
            short,
        ));
        assert(f.rows(a, short) + f.rows(b, short) =~= f.rows(a, short) + f.rows(b.drop_last(), short)
            + f.row(b.last(), short));
    }
}

/// Law: the header appears once, and each entry's line depends on that entry
/// alone.  Rendering an empty list gives the header; rendering two lists one
/// after the other gives the rendering of the first followed by the
/// rendering of the second without its header.
pub proof fn lemma_rendering_concat(f: Formatter, a: Seq<IssuedKey>, b: Seq<IssuedKey>, short: bool)
    ensures
        f.rendering(Seq::<IssuedKey>::empty(), short) == f.header(short),
        f.rendering(a + b, short) == f.rendering(a, short) + f.rendering(b, short).skip(
            f.header(short).len() as int,
        ),
{
    assert(f.rendering(Seq::<IssuedKey>::empty(), short) =~= f.header(short));
    lemma_rows_concat(f, a, b, short);
    assert(f.rendering(b, short).skip(f.header(short).len() as int) =~= f.rows(b, short));
    assert(f.rendering(a + b, short) =~= f.rendering(a, short) + f.rows(b, short));
}

fn push_header(out: &mut String, f: Formatter, short: bool)
    ensures
        final(out)@ == old(out)@ + f.header(short),
{
    let ghost start = out@;
    match f {
        Formatter::Console => if short {
            out.append("ID | User | Key | Hash  | Created At\n");
            out.append("---|------|-----|------|------------\n");
        } else {
            out.append("ID | User | Key | Hash | Active |  Reason  | Created At\n");
            out.append("---|------|-----|------|--------|----------|------------\n");
        },
        Formatter::Csv => if short {
            out.append("id,user, key, key_hash,created_at\n");
        } else {
            out.append("id,user, key, key_hash,active, reason, created_at\n");
        },
        Formatter::Markdown => if short {
            out.append(
                "| ID | User | Key | Hash | Created At |\n|----|------|------|--------|------------|\n",
            );
        } else {
            out.append(
                "| ID | User | Key | Hash | Active| Reason | Created At |\n|----|------|------|--------|----------|------------|\n",
            );
        },
    }
    assert(out@ =~= start + f.header(short));
}

fn push_row_open(out: &mut String, f: Formatter)
    ensures
        final(out)@ == old(out)@ + f.row_open(),
{
    match f {
        Formatter::Markdown => out.append("| "),
        _ => out.append(""),
    }
}

fn push_sep(out: &mut String, f: Formatter)
    ensures
        final(out)@ == old(out)@ + f.cell_sep(),
{
    match f {
        Formatter::Csv => out.append(","),
        _ => out.append(" | "),
    }
}

fn push_row_close(out: &mut String, f: Formatter)
    ensures
        final(out)@ == old(out)@ + f.row_close(),
{
    match f {
        Formatter::Markdown => out.append(" |\n"),
        _ => out.append("\n"),
    }
}

fn push_row_lead(out: &mut String, f: Formatter, k: &IssuedKey)
    ensures
        final(out)@ == old(out)@ + f.row_lead(*k),
{
    let ghost start = out@;
    push_row_open(out, f);
    push_i64(out, k.id);
    push_sep(out, f);
    let ghost a = out@;
    out.append(k.user.as_str());
    push_sep(out, f);
    out.append(k.key.as_str());
    push_sep(out, f);
    assert(out@ =~= a + k.user@ + f.cell_sep() + k.key@ + f.cell_sep());
    let ghost b = out@;
    out.append(k.key_hash.as_str());
    push_sep(out, f);
    assert(out@ =~= b + k.key_hash@ + f.cell_sep());
    assert(out@ =~= start + f.row_lead(*k));
}

fn push_row(out: &mut String, f: Formatter, k: &IssuedKey, short: bool)
    ensures
        final(out)@ == old(out)@ + f.row(*k, short),
{
    let ghost start = out@;
    push_row_lead(out, f, k);
    let ghost lead = out@;
    if !short {
        push_bool(out, k.active);
        push_sep(out, f);
        out.append(k.reason.as_str());
        push_sep(out, f);
    }
    let ghost mid = out@;
    out.append(k.created_at.as_str());
    push_row_close(out, f);
    assert(out@ =~= mid + k.created_at@ + f.row_close());
    if short {
        assert(out@ =~= start + f.row(*k, short));
    } else {
        assert(mid =~= lead + bool_text(k.active) + f.cell_sep() + k.reason@ + f.cell_sep());
        assert(out@ =~= start + f.row(*k, short));
    }
}

fn render_in(f: Formatter, keys: &[IssuedKey], short: bool) -> (r: String)
    ensures
        r@ == f.rendering(keys@, short),
{
    let mut out = String::new();
    push_header(&mut out, f, short);
    let n = keys.len();
    let mut i: usize = 0;
    assert(keys@.take(0) =~= Seq::<IssuedKey>::empty());
    while i < n
        invariant
            n == keys@.len(),
            i <= n,
            out@ == f.header(short) + f.rows(keys@.take(i as int), short),
        decreases n - i,
    {
        let ghost before = out@;
        push_row(&mut out, f, &keys[i], short);
        assert(keys@.take(i + 1).drop_last() =~= keys@.take(i as int));
        assert(keys@.take(i + 1).last() == keys@[i as int]);
        assert(out@ =~= f.header(short) + f.rows(keys@.take(i + 1), short));
        i = i + 1;
    }
    assert(keys@.take(n as int) =~= keys@);
    out
}

/// The journal as a console table.
pub fn render_as_table(keys: &[IssuedKey], short: bool) -> (r: String)
    ensures
        r@ == Formatter::Console.rendering(keys@, short),
{
    render_in(Formatter::Console, keys, short)
}

/// The journal as CSV.
pub fn render_as_csv(keys: &[IssuedKey], short: bool) -> (r: String)
    ensures
        r@ == Formatter::Csv.rendering(keys@, short),
{
    render_in(Formatter::Csv, keys, short)
}

/// The journal as a Markdown table.
pub fn render_as_markdown(keys: &[IssuedKey], short: bool) -> (r: String)
    ensures
        r@ == Formatter::Markdown.rendering(keys@, short),
{
    render_in(Formatter::Markdown, keys, short)
}

} // verus!
