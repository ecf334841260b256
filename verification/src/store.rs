//! The stored form of the book: the name of its file, and its bytes in the
//! postcard wire format.
//!
//! A stored book is the list of its entries and nothing else. On the wire
//! each entry is a row of four plain values, in the order row key,
//! identifier, name, description.

use vstd::prelude::*;
use vstd::string::StringExecFns;
use crate::entry::{entry_views, EntryView, MemoEntry};
use crate::memo::{Memo, MemoView};

verus! {

/// The error type of the postcard crate, carried through as it comes.
#[verifier::external_type_specification]
#[verifier::external_body]
pub struct ExPostcardError(postcard::Error);

/// What `postcard::to_stdvec` returns for a list of rows: the bytes, or
/// `None` where it reports an error.
pub uninterp spec fn postcard_encoding(rows: Seq<(u64, Seq<char>, Seq<char>, Seq<char>)>) -> Option<Seq<u8>>;

/// What `postcard::from_bytes` reads from `bytes` as a list of rows, or
/// `None` where it reports an error. It reads the lengths on the wire as
/// machine words, so what it accepts goes by the width of the word too:
/// `word_bits`.
pub uninterp spec fn postcard_decoding(bytes: Seq<u8>, word_bits: nat) -> Option<Seq<(u64, Seq<char>, Seq<char>, Seq<char>)>>;

/// The plain values of a list of rows.
pub open spec fn row_views(rows: Seq<(u64, String, String, String)>) -> Seq<
    (u64, Seq<char>, Seq<char>, Seq<char>),
> {
    rows.map_values(|row: (u64, String, String, String)| (row.0, row.1@, row.2@, row.3@))
}

/// Calls `postcard::to_stdvec` on the rows. Nothing is claimed of the bytes
/// but that they are what that function gives for these rows, and nothing of
/// an error but that it stands for a refusal.
#[verifier::external_body]
fn postcard_to_stdvec(rows: &Vec<(u64, String, String, String)>) -> (out: Result<
    Vec<u8>,
    postcard::Error,
>)
    ensures
        postcard_encoding(row_views(rows@)) == match out {
            Ok(bytes) => Some(bytes@),
            Err(_) => None,
        },
{
    postcard::to_stdvec(rows)
}

/// Calls `postcard::from_bytes` to read a list of rows. Nothing is claimed of
/// the rows but that they are what that function reads from these bytes on a
/// machine of this word width, and nothing of an error but that it stands for
/// a refusal.
#[verifier::external_body]
fn postcard_from_bytes(bytes: &[u8]) -> (out: Result<
    Vec<(u64, String, String, String)>,
    postcard::Error,
>)
    ensures
        postcard_decoding(bytes@, usize::BITS as nat) == match out {
            Ok(rows) => Some(row_views(rows@)),
            Err(_) => None,
        },
{
    postcard::from_bytes(bytes)
}

/// Why a book could not be written or read.
#[derive(Debug, PartialEq, Eq)]
pub enum StoreError {
    /// The encoder refused the rows.
    Encode(postcard::Error),
    /// The bytes are not a list of rows.
    Decode(postcard::Error),
    /// A stored row key is larger than this machine's word.
    LocalIdTooLarge,
}

/// The rows that stand for a list of entries.
pub open spec fn rows_of_entries(entries: Seq<EntryView>) -> Seq<
    (u64, Seq<char>, Seq<char>, Seq<char>),
> {
    entries.map_values(|e: EntryView| (e.local_id as u64, e.id, e.name, e.description))
}

/// Whether every row key among `rows` fits this machine's word.
pub open spec fn rows_fit(rows: Seq<(u64, Seq<char>, Seq<char>, Seq<char>)>) -> bool {
    forall|i: int| 0 <= i < rows.len() ==> (#[trigger] rows[i]).0 <= usize::MAX
}

/// The entries that a list of rows stands for.
pub open spec fn entries_of_rows(rows: Seq<(u64, Seq<char>, Seq<char>, Seq<char>)>) -> Seq<
    EntryView,
> {
    rows.map_values(
        |row: (u64, Seq<char>, Seq<char>, Seq<char>)|
            EntryView { local_id: row.0 as nat, id: row.1, name: row.2, description: row.3 },
    )
}

/// The rows that stand for `entries`, in order.
pub fn rows_of(entries: &Vec<MemoEntry>) -> (rows: Vec<(u64, String, String, String)>)
    ensures
        row_views(rows@) == rows_of_entries(entry_views(entries@)),
{
    let mut rows: Vec<(u64, String, String, String)> = Vec::new();
    let mut k: usize = 0;
    while k < entries.len()
        invariant
            k <= entries.len(),
            row_views(rows@) == rows_of_entries(entry_views(entries@).take(k as int)),
        decreases entries.len() - k,
    {
        let entry = &entries[k];
        let ghost before = row_views(rows@);
        rows.push(
            (entry.local_id as u64, entry.id.clone(), entry.name.clone(), entry.description.clone()),
        );
        proof {
            let all = entry_views(entries@);
            assert(all.take(k + 1) == all.take(k as int).push(all[k as int]));
            assert(row_views(rows@) == before.push(row_views(rows@)[k as int]));
        }
        k += 1;
    }
    proof {
        let all = entry_views(entries@);
        assert(all.take(k as int) == all);
    }
    rows
}

/// The entries that `rows` stand for, in order, unless a row key does not
/// fit this machine's word.
pub fn entries_of(rows: Vec<(u64, String, String, String)>) -> (out: Result<
    Vec<MemoEntry>,
    StoreError,
>)
    ensures
        match out {
            Ok(entries) => rows_fit(row_views(rows@)) && entry_views(entries@) == entries_of_rows(
                row_views(rows@),
            ),
            Err(e) => !rows_fit(row_views(rows@)) && e == StoreError::LocalIdTooLarge,
        },
{
    let mut entries: Vec<MemoEntry> = Vec::new();
    let ghost all = row_views(rows@);
    for row in it: rows
        invariant
            it.seq() == rows@,
            all == row_views(rows@),
            entry_views(entries@) == entries_of_rows(all.take(it.index() as int)),
            rows_fit(all.take(it.index() as int)),
    {
        let ghost k = it.index() as int;
        let ghost before = entry_views(entries@);
        proof {
            assert(all.take(k + 1) == all.take(k).push(all[k]));
            assert(all[k] == (row.0, row.1@, row.2@, row.3@));
        }
        if row.0 > usize::MAX as u64 {
            return Err(StoreError::LocalIdTooLarge);
        }
        entries.push(MemoEntry::new(row.0 as usize, row.1, row.2, row.3));
        proof {
            assert(entry_views(entries@) == before.push(entry_views(entries@)[k]));
            assert forall|i: int| 0 <= i < all.take(k + 1).len() implies (#[trigger] all.take(
                k + 1,
            )[i]).0 <= usize::MAX by {
                if i < k {
                    assert(all.take(k + 1)[i] == all.take(k)[i]);
                }
            }
        }
    }
    proof {
        assert(all.take(all.len() as int) == all);
    }
    Ok(entries)
}

/// The book that a list of rows stands for: its entries, with nothing
/// pending and no focus request. There is none where a row key does not fit
/// this machine's word.
pub open spec fn book_of_rows(rows: Seq<(u64, Seq<char>, Seq<char>, Seq<char>)>) -> Option<
    MemoView,
> {
    if rows_fit(rows) {
        Some(MemoView::holding(entries_of_rows(rows)))
    } else {
        None
    }
}

/// The rows that the decoder reads from `bytes` on this machine, if it reads
/// any.
pub open spec fn stored_rows(bytes: Seq<u8>) -> Option<Seq<(u64, Seq<char>, Seq<char>, Seq<char>)>> {
    postcard_decoding(bytes, usize::BITS as nat)
}

/// The book that `bytes` hold, if they hold one.
pub open spec fn stored_book(bytes: Seq<u8>) -> Option<MemoView> {
    match stored_rows(bytes) {
        Some(rows) => book_of_rows(rows),
        None => None,
    }
}

/// Whether `out` is the outcome that reading `bytes` must have: the stored
/// book where the bytes hold one, and otherwise the error that says what is
/// wrong with them.
pub open spec fn reads_as(bytes: Seq<u8>, out: Result<Memo, StoreError>) -> bool {
    match out {
        Ok(memo) => stored_book(bytes) == Some(memo@),
        Err(StoreError::Decode(_)) => stored_rows(bytes) is None,
        Err(StoreError::LocalIdTooLarge) => stored_rows(bytes) is Some && stored_book(bytes) is None,
        Err(StoreError::Encode(_)) => false,
    }
}

impl Memo {
    /// The book that `rows` stand for.
    pub fn from_rows(rows: Vec<(u64, String, String, String)>) -> (out: Result<Memo, StoreError>)
        ensures
            match out {
                Ok(memo) => book_of_rows(row_views(rows@)) == Some(memo@),
                Err(e) => book_of_rows(row_views(rows@)) is None && e == StoreError::LocalIdTooLarge,
            },
    {
        match entries_of(rows) {
            Ok(entries) => Ok(Memo::with_entries(entries)),
            Err(e) => Err(e),
        }
    }

    /// The entries of the book as bytes in the postcard wire format. The
    /// pending fields and the focus request are not stored.
    pub fn to_postcard(&self) -> (out: Result<Vec<u8>, StoreError>)
        ensures
            match out {
                Ok(bytes) => postcard_encoding(rows_of_entries(self@.entries)) == Some(bytes@),
                Err(e) => postcard_encoding(rows_of_entries(self@.entries)) is None && e is Encode,
            },
    {
        let rows = rows_of(self.entries());
        match postcard_to_stdvec(&rows) {
            Ok(bytes) => Ok(bytes),
            Err(e) => Err(StoreError::Encode(e)),
        }
    }

    /// Reads a book from bytes in the postcard wire format.
    pub fn from_postcard(bytes: &[u8]) -> (out: Result<Memo, StoreError>)
        ensures
            reads_as(bytes@, out),
    {
        match postcard_from_bytes(bytes) {
            Ok(rows) => Memo::from_rows(rows),
            Err(e) => Err(StoreError::Decode(e)),
        }
    }

    /// The book to start with: the one that the stored bytes hold, in the
    /// postcard wire format, or the empty one where nothing is stored. Bytes
    /// that hold no book are an error, never an empty book.
    pub fn load(stored: Option<&[u8]>) -> (out: Result<Memo, StoreError>)
        ensures
            match stored {
                Some(bytes) => reads_as(bytes@, out),
                None => out matches Ok(memo) && memo@ == MemoView::empty(),
            },
    {
        match stored {
            None => Ok(Memo::default()),
            Some(bytes) => Memo::from_postcard(bytes),
        }
    }
}

/// Rows made from entries stand for those entries again, in their order:
/// nothing of an entry is lost on the way to the wire and back.
pub proof fn lemma_rows_keep_entries(entries: Seq<EntryView>)
    requires
        forall|i: int| 0 <= i < entries.len() ==> (#[trigger] entries[i]).local_id <= usize::MAX,
    ensures
        rows_fit(rows_of_entries(entries)),
        entries_of_rows(rows_of_entries(entries)) == entries,
        book_of_rows(rows_of_entries(entries)) == Some(MemoView::holding(entries)),
{
    let rows = rows_of_entries(entries);
    assert forall|i: int| 0 <= i < rows.len() implies (#[trigger] rows[i]).0 <= usize::MAX by {
        assert(rows[i].0 == entries[i].local_id as u64);
    }
    assert forall|i: int| 0 <= i < entries.len() implies entries_of_rows(rows)[i] == entries[i] by {
        assert(rows[i].0 == entries[i].local_id as u64);
    }
    assert(entries_of_rows(rows) == entries);
}

/// The format of the file that keeps the book between runs. The extension
/// of the file names it.
#[derive(Debug, Clone, Copy, PartialEq, Eq)]
pub enum Format {
    /// CBOR, with each entry as a map keyed by its field names. The caller
    /// encodes and decodes it.
    Cbor,
    /// The postcard wire format, which [`Memo::to_postcard`] writes and
    /// [`Memo::from_postcard`] reads.
    Postcard,
}

impl Format {
    /// The file extension that names the format.
    pub open spec fn extension_text(self) -> Seq<char> {
        match self {
            Format::Cbor => "cbor"@,
            Format::Postcard => "postcard"@,
        }
    }

    /// The file extension that names the format.
    pub fn extension(&self) -> (ext: &'static str)
        ensures
            ext@ == self.extension_text(),
    {
        match self {
            Format::Cbor => "cbor",
            Format::Postcard => "postcard",
        }
    }

    /// The name of the file that keeps the book called `name`: the name, a
    /// dot and the extension of the format.
    pub fn file_name(&self, name: &str) -> (file: String)
        ensures
            file@ == name@ + "."@ + self.extension_text(),
    {
        let mut file = name.to_owned();
        file.append(".");
        file.append(self.extension());
        file
    }
}

} // verus!
