//! Conversation history for the chat collaborator: entries by role, and the
//! verified text processing that digs tables and JSON documents out of
//! assistant replies.

use vstd::prelude::*;
use crate::json::{json_as_array, json_get_mut, json_take, parse_json, spec_json_parses};
use crate::text::{
    find_char, lemma_find_bounds, lemma_rfind_bounds, rfind_char, spec_find, spec_rfind,
    spec_split, spec_trim, spec_views, split_char, trim_str,
};

verus! {

/// One turn of the conversation, tagged with its role.
#[derive(Clone, Debug)]
pub enum Entry {
    System(String),
    Assistant(String),
    User(String),
}

/// The abstract value of an entry: the role tag and the text.
pub enum EntryV {
    System(Seq<char>),
    Assistant(Seq<char>),
    User(Seq<char>),
}

impl EntryV {
    /// The text of the turn, whatever the role.
    pub open spec fn text(self) -> Seq<char> {
        match self {
            EntryV::System(s) => s,
            EntryV::Assistant(s) => s,
            EntryV::User(s) => s,
        }
    }
}

impl View for Entry {
    type V = EntryV;

    closed spec fn view(&self) -> EntryV {
        match self {
            Entry::System(s) => EntryV::System(s@),
            Entry::Assistant(s) => EntryV::Assistant(s@),
            Entry::User(s) => EntryV::User(s@),
        }
    }
}

/// Cells of one table row: the row without its edge characters, split on the
/// column separator, each cell trimmed.
pub open spec fn spec_row_cells(row: Seq<char>) -> Seq<Seq<char>> {
    spec_split(row.subrange(1, row.len() - 1), '|').map_values(|c: Seq<char>| spec_trim(c))
}

/// All rows except the separator row under the header, which sits at index
/// one.
pub open spec fn spec_drop_separator_row(rows: Seq<Seq<char>>) -> Seq<Seq<char>> {
    if rows.len() <= 1 {
        rows
    } else {
        rows.take(1) + rows.skip(2)
    }
}

/// The first `i` rows with the separator row left out.
pub open spec fn spec_drop_sep_prefix(rows: Seq<Seq<char>>, i: int) -> Seq<Seq<char>> {
    if i <= 1 {
        rows.take(i)
    } else {
        rows.take(1) + rows.subrange(2, i)
    }
}

/// The cell table of a sequence of rows.
pub open spec fn spec_cells_of_rows(rows: Seq<Seq<char>>) -> Seq<Seq<Seq<char>>> {
    rows.map_values(|row: Seq<char>| spec_row_cells(row))
}

/// The pipe-delimited region of a message: from the first `|` through the
/// last `|`, if any `|` occurs.
pub open spec fn spec_table_region(s: Seq<char>) -> Option<Seq<char>> {
    match spec_find(s, '|') {
        Option::None => Option::None,
        Option::Some(f) => match spec_rfind(s.skip(f), '|') {
            Option::None => Option::None,
            Option::Some(p) => Option::Some(s.skip(f).take(p + 1)),
        },
    }
}

/// The table a message contains: the pipe-delimited region, split into
/// lines, the separator row dropped, every other row split into trimmed
/// cells.
pub open spec fn spec_as_table(s: Seq<char>) -> Option<Seq<Seq<Seq<char>>>> {
    match spec_table_region(s) {
        Option::None => Option::None,
        Option::Some(region) => Option::Some(
            spec_cells_of_rows(spec_drop_separator_row(spec_split(region, '\n'))),
        ),
    }
}

/// Every row that contributes cells is long enough to lose its two edge
/// characters; rows that are not make the extraction meaningless.
pub open spec fn spec_table_rows_ok(s: Seq<char>) -> bool {
    match spec_table_region(s) {
        Option::None => true,
        Option::Some(region) => {
            let rows = spec_split(region, '\n');
            forall|i: int| 0 <= i < rows.len() && i != 1 ==> rows[i].len() >= 2
        },
    }
}

/// The bracket-delimited region a JSON document is looked for in: from the
/// first `[` (or `{`, whichever opens first) through the matching kind of
/// last closing bracket.
pub open spec fn spec_json_region(s: Seq<char>) -> Option<Seq<char>> {
    let fb = spec_find(s, '[');
    let fc = spec_find(s, '{');
    let array = match (fb, fc) {
        (Option::Some(b), Option::Some(c)) => b < c,
        (Option::Some(b), Option::None) => true,
        (Option::None, _) => false,
    };
    let opening = if array {
        fb
    } else {
        fc
    };
    let close = if array {
        ']'
    } else {
        '}'
    };
    match opening {
        Option::None => Option::None,
        Option::Some(b) => match spec_rfind(s.skip(b), close) {
            Option::None => Option::None,
            Option::Some(p) => Option::Some(s.skip(b).take(p + 1)),
        },
    }
}

/// The views of a table of strings.
pub open spec fn spec_table_views(t: Seq<Vec<String>>) -> Seq<Seq<Seq<char>>> {
    t.map_values(|row: Vec<String>| spec_views(row@))
}

impl Entry {
    /// The text of the turn, whatever the role.
    pub fn content(&self) -> (r: &str)
        ensures
            r@ == self@.text(),
    {
        match self {
            Entry::System(s) | Entry::Assistant(s) | Entry::User(s) => s.as_str(),
        }
    }

    /// The markdown-style table contained in the message, if a pipe occurs:
    /// rows between the first and last pipe, the separator row dropped, each
    /// remaining row stripped of its edge characters and split into trimmed
    /// cells.
    pub fn as_table(&self) -> (r: Option<Vec<Vec<String>>>)
        requires
            spec_table_rows_ok(self@.text()),
        ensures
            r is Some <==> spec_as_table(self@.text()) is Some,
            r matches Some(t) ==> spec_as_table(self@.text()) == Option::Some(
                spec_table_views(t@),
            ),
    {
        let content = self.content();
        let n = content.unicode_len();
        let f = match find_char(content, '|') {
            Some(f) => f,
            None => {
                return None;
            },
        };
        proof {
            lemma_find_bounds(content@, '|');
        }
        let suffix = content.substring_char(f, n);
        proof {
            assert(suffix@ =~= content@.skip(f as int));
        }
        let p = match rfind_char(suffix, '|') {
            Some(p) => p,
            None => {
                return None;
            },
        };
        proof {
            lemma_rfind_bounds(suffix@, '|');
        }
        let region = suffix.substring_char(0, p + 1);
        proof {
            assert(region@ =~= content@.skip(f as int).take(p + 1));
            assert(spec_table_region(self@.text()) == Option::Some(region@));
        }
        let rows = split_char(region, '\n');
        let ghost rowsv = spec_views(rows@);
        let mut out: Vec<Vec<String>> = Vec::new();
        proof {
            assert(spec_table_views(out@) =~~= spec_cells_of_rows(spec_drop_sep_prefix(rowsv, 0)));
        }
        let mut i: usize = 0;
        while i < rows.len()
            invariant
                i <= rows.len(),
                spec_views(rows@) == rowsv,
                rowsv == spec_split(region@, '\n'),
                forall|k: int| 0 <= k < rowsv.len() && k != 1 ==> rowsv[k].len() >= 2,
                spec_table_views(out@) == spec_cells_of_rows(spec_drop_sep_prefix(rowsv, i as int)),
            decreases rows.len() - i,
        {
            if i != 1 {
                let row = &rows[i];
                let rl = row.unicode_len();
                proof {
                    assert(rowsv[i as int] == row@);
                }
                let inner = row.as_str().substring_char(1, rl - 1);
                let cells = split_char(inner, '|');
                let mut trimmed: Vec<String> = Vec::new();
                let mut j: usize = 0;
                while j < cells.len()
                    invariant
                        j <= cells.len(),
                        trimmed@.len() == j,
                        forall|k: int| 0 <= k < j ==> trimmed@[k]@ == spec_trim(cells@[k]@),
                    decreases cells.len() - j,
                {
                    let cell = trim_str(cells[j].as_str());
                    trimmed.push(cell);
                    j = j + 1;
                }
                proof {
                    assert(spec_views(trimmed@) =~~= spec_row_cells(rowsv[i as int]));
                }
                let ghost prev = out@;
                out.push(trimmed);
                proof {
                    assert(spec_drop_sep_prefix(rowsv, i + 1) =~= spec_drop_sep_prefix(
                        rowsv,
                        i as int,
                    ).push(rowsv[i as int]));
                    assert(spec_table_views(out@) =~~= spec_table_views(prev).push(
                        spec_views(trimmed@),
                    ));
                    assert(spec_cells_of_rows(spec_drop_sep_prefix(rowsv, i as int).push(
                        rowsv[i as int],
                    )) =~~= spec_cells_of_rows(spec_drop_sep_prefix(rowsv, i as int)).push(
                        spec_row_cells(rowsv[i as int]),
                    ));
                    assert(spec_table_views(out@) =~~= spec_cells_of_rows(
                        spec_drop_sep_prefix(rowsv, i + 1),
                    ));
                }
            } else {
                proof {
                    assert(spec_drop_sep_prefix(rowsv, i + 1) =~= spec_drop_sep_prefix(
                        rowsv,
                        i as int,
                    ));
                }
            }
            i = i + 1;
        }
        proof {
            assert(spec_drop_sep_prefix(rowsv, rowsv.len() as int) =~= spec_drop_separator_row(
                rowsv,
            ));
        }
        Some(out)
    }

    /// The JSON document embedded in the message, if any: the region from
    /// the earliest opening bracket to the last matching closing bracket,
    /// parsed, and a one-element array collapsed to its element. Succeeds
    /// exactly when such a region exists and parses.
    pub fn as_json(&self) -> (r: Option<serde_json::Value>)
        ensures
            r is Some <==> (spec_json_region(self@.text()) matches Option::Some(region)
                && spec_json_parses(region)),
    {
        let content = self.content();
        let n = content.unicode_len();
        let fb = find_char(content, '[');
        let fc = find_char(content, '{');
        let array = match (fb, fc) {
            (Some(b), Some(c)) => b < c,
            (Some(_), None) => true,
            _ => false,
        };
        let opening = if array {
            fb
        } else {
            fc
        };
        let close = if array {
            ']'
        } else {
            '}'
        };
        let start = match opening {
            Some(b) => b,
            None => {
                return None;
            },
        };
        proof {
            lemma_find_bounds(content@, '[');
            lemma_find_bounds(content@, '{');
        }
        let suffix = content.substring_char(start, n);
        proof {
            assert(suffix@ =~= content@.skip(start as int));
        }
        let p = match rfind_char(suffix, close) {
            Some(p) => p,
            None => {
                return None;
            },
        };
        proof {
            lemma_rfind_bounds(suffix@, close);
        }
        let region = suffix.substring_char(0, p + 1);
        proof {
            assert(region@ =~= content@.skip(start as int).take(p + 1));
            assert(spec_json_region(self@.text()) == Option::Some(region@));
        }
        let mut json = match parse_json(region) {
            Some(j) => j,
            None => {
                return None;
            },
        };
        let single = match json_as_array(&json) {
            Some(arr) => arr.len() == 1,
            None => false,
        };
        if single {
            let taken = match json_get_mut(&mut json, 0) {
                Some(first) => Some(json_take(first)),
                None => None,
            };
            match taken {
                Some(t) => Some(t),
                None => Some(json),
            }
        } else {
            Some(json)
        }
    }
}

/// The conversation handed to the chat collaborator: the model name, the
/// turns so far, and the tokens consumed by completions.
#[derive(Clone, Debug)]
pub struct Chat {
    model: &'static str,
    messages: Vec<Entry>,
    tokens: u64,
}

impl Chat {
    /// The model the conversation is addressed to.
    pub closed spec fn spec_model(&self) -> Seq<char> {
        self.model@
    }

    /// The turns so far, oldest first.
    pub closed spec fn spec_messages(&self) -> Seq<EntryV> {
        self.messages@.map_values(|e: Entry| e@)
    }

    /// Tokens consumed by completions so far.
    pub closed spec fn spec_tokens(&self) -> u64 {
        self.tokens
    }

    /// An empty conversation.
    pub fn new() -> (r: Self)
        ensures
            r.spec_messages() == Seq::<EntryV>::empty(),
            r.spec_tokens() == 0,
            r.spec_model() == "gpt-3.5-turbo"@,
    {
        let r = Chat { model: "gpt-3.5-turbo", messages: Vec::new(), tokens: 0 };
        proof {
            assert(r.spec_messages() =~= Seq::<EntryV>::empty());
        }
        r
    }

    /// Append a turn.
    pub fn push_entry(&mut self, entry: Entry)
        ensures
            final(self).spec_messages() == old(self).spec_messages().push(entry@),
            final(self).spec_tokens() == old(self).spec_tokens(),
            final(self).spec_model() == old(self).spec_model(),
    {
        self.messages.push(entry);
        proof {
            assert(self.spec_messages() =~= old(self).spec_messages().push(
                self.messages@.last()@,
            ));
        }
    }

    /// Append a system turn.
    pub fn push_system(&mut self, message: &str)
        ensures
            final(self).spec_messages() == old(self).spec_messages().push(
                EntryV::System(message@),
            ),
            final(self).spec_tokens() == old(self).spec_tokens(),
            final(self).spec_model() == old(self).spec_model(),
    {
        self.push_entry(Entry::System(message.to_owned()));
    }

    /// Append an assistant turn.
    pub fn push_assistant(&mut self, message: &str)
        ensures
            final(self).spec_messages() == old(self).spec_messages().push(
                EntryV::Assistant(message@),
            ),
            final(self).spec_tokens() == old(self).spec_tokens(),
            final(self).spec_model() == old(self).spec_model(),
    {
        self.push_entry(Entry::Assistant(message.to_owned()));
    }

    /// Append a user turn.
    pub fn push_user(&mut self, message: &str)
        ensures
            final(self).spec_messages() == old(self).spec_messages().push(EntryV::User(message@)),
            final(self).spec_tokens() == old(self).spec_tokens(),
            final(self).spec_model() == old(self).spec_model(),
    {
        self.push_entry(Entry::User(message.to_owned()));
    }

    /// The most recent turn, if any.
    pub fn last(&self) -> (r: Option<&Entry>)
        ensures
            self.spec_messages().len() == 0 ==> r is None,
            self.spec_messages().len() > 0 ==> (r matches Some(e) && e@
                == self.spec_messages().last()),
    {
        if self.messages.len() == 0 {
            None
        } else {
            let e = vstd::std_specs::vec::vec_index(&self.messages, self.messages.len() - 1);
            Some(e)
        }
    }

    /// Tokens consumed by completions so far.
    pub fn tokens_used(&self) -> (r: u64)
        ensures
            r == self.spec_tokens(),
    {
        self.tokens
    }

    /// The model name, for the completion request.
    pub fn model_name(&self) -> (r: &str)
        ensures
            r@ == self.spec_model(),
    {
        self.model
    }

    /// All turns so far, oldest first, for the completion request.
    pub fn entries(&self) -> (r: &Vec<Entry>)
        ensures
            r@.map_values(|e: Entry| e@) == self.spec_messages(),
    {
        &self.messages
    }

    /// Absorb one completion round: count the tokens it consumed and append
    /// the entry the collaborator returned.
    pub fn record_completion(&mut self, entry: Entry, tokens_used: u64)
        requires
            old(self).spec_tokens() + tokens_used <= u64::MAX,
        ensures
            final(self).spec_messages() == old(self).spec_messages().push(entry@),
            final(self).spec_tokens() == old(self).spec_tokens() + tokens_used,
            final(self).spec_model() == old(self).spec_model(),
    {
        self.tokens = self.tokens + tokens_used;
        self.push_entry(entry);
    }
}

} // verus!
