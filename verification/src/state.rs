//! The document store: the session's one mapping from uri (an opaque,
//! case-sensitive string, never normalized) to the document's current
//! full text. Entries are created on open, overwritten on open or
//! change, and never removed within a session.
use crate::hover::HoverParams;
use crate::hover::HoverResponse;
use crate::hover::hover_response_json;
use crate::json::JsonVal;
use crate::text::dec_chars;
use crate::text::u64_to_string;
use vstd::prelude::*;
use vstd::string::StringExecFns;
use vstd::utf8::encode_utf8;

verus! {

/// The mapping a sequence of entries stands for; a later entry with the
/// same uri supersedes an earlier one.
pub open spec fn map_of(entries: Seq<(String, String)>) -> Map<Seq<char>, Seq<char>>
    decreases entries.len(),
{
    if entries.len() == 0 {
        Map::empty()
    } else {
        map_of(entries.drop_last()).insert(entries.last().0@, entries.last().1@)
    }
}

/// The in-memory set of open documents. Entries are held in arrival
/// order; an overwrite appends, and lookups read the newest entry, so
/// the view is always the current mapping.
pub struct State {
    documents: Vec<(String, String)>,
}

impl View for State {
    type V = Map<Seq<char>, Seq<char>>;

    closed spec fn view(&self) -> Map<Seq<char>, Seq<char>> {
        map_of(self.documents@)
    }
}

/// The text a hover response shows for a stored document.
pub open spec fn hover_text(uri: Seq<char>, len: nat) -> Seq<char> {
    "uri: "@ + uri + ", length: "@ + dec_chars(len)
}

/// The hover result for `uri` against the store `docs`: the document's
/// uri and byte length when it is open, empty contents when it is not.
pub open spec fn hover_result(docs: Map<Seq<char>, Seq<char>>, uri: Seq<char>) -> JsonVal {
    if docs.contains_key(uri) {
        hover_response_json(hover_text(uri, encode_utf8(docs[uri]).len()))
    } else {
        hover_response_json(Seq::empty())
    }
}

impl State {
    /// An empty store.
    pub fn new() -> (r: State)
        ensures
            r@ == Map::<Seq<char>, Seq<char>>::empty(),
    {
        State { documents: Vec::new() }
    }

    /// Whether `uri` is an open document.
    pub fn has_document(&self, uri: &String) -> (r: bool)
        ensures
            r == self@.contains_key(uri@),
    {
        self.get_document(uri).is_some()
    }

    /// The current text of `uri`, if it is open.
    pub fn get_document(&self, uri: &String) -> (r: Option<&String>)
        ensures
            r is Some <==> self@.contains_key(uri@),
            r is Some ==> r.unwrap()@ == self@[uri@],
    {
        let docs = &self.documents;
        let mut i: usize = docs.len();
        proof {
            assert(docs@.take(docs@.len() as int) =~= docs@);
        }
        while i > 0
            invariant
                i <= docs@.len(),
                self@ == map_of(docs@),
                map_of(docs@).contains_key(uri@) == map_of(docs@.take(i as int)).contains_key(
                    uri@,
                ),
                map_of(docs@).contains_key(uri@) ==> map_of(docs@)[uri@] == map_of(
                    docs@.take(i as int),
                )[uri@],
            decreases i,
        {
            proof {
                assert(docs@.take(i as int).last() == docs@[i - 1]);
                assert(docs@.take(i as int).drop_last() =~= docs@.take(i - 1 as int));
                assert(map_of(docs@.take(i as int)) == map_of(docs@.take(i - 1 as int)).insert(
                    docs@[i - 1].0@,
                    docs@[i - 1].1@,
                ));
            }
            if docs[i - 1].0.eq(uri) {
                proof {
                    assert(map_of(docs@.take(i as int)).contains_key(uri@));
                    assert(map_of(docs@.take(i as int))[uri@] == docs@[i - 1].1@);
                    assert(self@.contains_key(uri@));
                    assert(self@[uri@] == docs@[i - 1].1@);
                }
                return Some(&docs[i - 1].1);
            }
            i = i - 1;
        }
        proof {
            assert(docs@.take(0) =~= Seq::<(String, String)>::empty());
            assert(map_of(docs@.take(0)) =~= Map::<Seq<char>, Seq<char>>::empty());
        }
        None
    }

    /// Unconditional insert-or-replace on open.
    pub fn open_document(&mut self, uri: String, contents: String)
        ensures
            final(self)@ == old(self)@.insert(uri@, contents@),
    {
        let ghost before = self.documents@;
        let ghost u = uri@;
        let ghost c = contents@;
        self.documents.push((uri, contents));
        proof {
            assert(self.documents@.drop_last() =~= before);
            assert(self.documents@.last().0@ == u);
            assert(self.documents@.last().1@ == c);
        }
    }

    /// Unconditional insert-or-replace on change; this server supports
    /// only full-text sync, so the new text replaces the whole document.
    pub fn update_document(&mut self, uri: String, contents: String)
        ensures
            final(self)@ == old(self)@.insert(uri@, contents@),
    {
        self.open_document(uri, contents);
    }

    /// The hover response for the given parameters: a pure read of the
    /// store, computed fresh on every request. An unopened uri is not an
    /// error: the response simply has empty contents.
    pub fn hover(&self, hover_params: HoverParams) -> (r: HoverResponse)
        ensures
            r.wire() == hover_result(self@, hover_params.text_document.uri@),
    {
        let uri = hover_params.text_document.uri;
        match self.get_document(&uri) {
            None => HoverResponse::new(String::new()),
            Some(document) => {
                let len = document.as_str().as_bytes().len();
                let mut contents = String::from_str("uri: ");
                contents.append(uri.as_str());
                contents.append(", length: ");
                let digits = u64_to_string(len as u64);
                contents.append(digits.as_str());
                proof {
                    assert(contents@ =~= hover_text(uri@, encode_utf8(self@[uri@]).len()));
                }
                HoverResponse::new(contents)
            },
        }
    }
}

} // verus!
