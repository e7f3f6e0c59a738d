//! How much memory prepared statements and portals hold on to, and the limit on
//! it.

use crate::datum::{Datum, DatumView};
use crate::error::{sql_error, SqlError, SqlErrorView};
use crate::pg_message::{
    column_views, row_values, rows_values, ColumnView, QueryResult, ResultColumn, ResultView,
};
use crate::text::text_bytes;
use vstd::layout::size_of;
use vstd::prelude::*;
use vstd::string::*;
use vstd::utf8::encode_utf8;

verus! {

pub const MAX_RETAINED_EXTENDED_QUERY_BYTES: usize = 16_777_216;

/// A statement that a client prepared.
#[derive(Clone, Debug)]
pub struct Prepared {
    pub sql: String,
    pub types: Vec<u32>,
}

/// What a [`Prepared`] holds.
#[verifier::ext_equal]
pub struct PreparedView {
    pub sql: Seq<char>,
    pub types: Seq<u32>,
}

impl View for Prepared {
    type V = PreparedView;

    open spec fn view(&self) -> PreparedView {
        PreparedView { sql: self.sql@, types: self.types@ }
    }
}

/// A statement with its parameters, ready to run.
#[derive(Clone, Debug)]
pub struct Portal {
    pub sql: String,
    pub params: Vec<Datum>,
    /// The formats of the result: none means text for all columns, and one
    /// applies to all.
    pub result_formats: Vec<u16>,
    /// What is left of a result that was not sent whole.
    pub pending: Option<QueryResult>,
    /// Whether the client was told the shape of the result.
    pub described: bool,
    /// What its texts and lists had taken of memory when it was kept.
    pub heap: usize,
}

/// What a [`Portal`] holds.
#[verifier::ext_equal]
pub struct PortalView {
    pub sql: Seq<char>,
    pub params: Seq<DatumView>,
    pub result_formats: Seq<u16>,
    pub pending: Option<ResultView>,
    pub described: bool,
    pub heap: nat,
}

impl View for Portal {
    type V = PortalView;

    open spec fn view(&self) -> PortalView {
        PortalView {
            sql: self.sql@,
            params: row_values(self.params),
            result_formats: self.result_formats@,
            pending: match self.pending {
                Some(result) => Some(result@),
                None => None,
            },
            described: self.described,
            heap: self.heap as nat,
        }
    }
}

// ---------------------------------------------------------------------------
// Charges
// ---------------------------------------------------------------------------

/// The error that a charge cannot be counted.
pub open spec fn size_overflow() -> SqlErrorView {
    sql_error("54000"@, "extended-query retained state size overflow"@)
}

/// A charge that can be counted.
pub open spec fn countable(charge: nat) -> Result<nat, SqlErrorView> {
    if charge <= usize::MAX {
        Ok(charge)
    } else {
        Err(size_overflow())
    }
}

/// Whether counting came out as it should.
pub open spec fn counts(charge: nat, result: Result<usize, SqlError>) -> bool {
    match result {
        Ok(bytes) => charge == bytes,
        Err(e) => charge > usize::MAX && e@ == size_overflow(),
    }
}

/// The error that a charge cannot be counted.
pub fn retained_size_overflow() -> (error: SqlError)
    ensures
        error@ == size_overflow(),
{
    SqlError::new("54000", "extended-query retained state size overflow")
}

/// Adds a charge.
pub fn charge_retained(total: &mut usize, bytes: usize) -> (result: Result<(), SqlError>)
    ensures
        match result {
            Ok(()) => *final(total) == *old(total) + bytes,
            Err(e) => *old(total) + bytes > usize::MAX && *final(total) == *old(total) && e@
                == size_overflow(),
        },
{
    match total.checked_add(bytes) {
        Some(sum) => {
            *total = sum;
            Ok(())
        },
        None => Err(retained_size_overflow()),
    }
}

/// Adds the charge for a number of items of a size.
pub fn charge_retained_items(total: &mut usize, count: usize, size: usize) -> (result: Result<
    (),
    SqlError,
>)
    ensures
        match result {
            Ok(()) => *final(total) == *old(total) + count * size,
            Err(e) => *old(total) + count * size > usize::MAX && *final(total) == *old(total) && e@
                == size_overflow(),
        },
{
    proof {
        assert(count * size >= 0) by (nonlinear_arith);
    }
    match count.checked_mul(size) {
        Some(bytes) => charge_retained(total, bytes),
        None => Err(retained_size_overflow()),
    }
}

// ---------------------------------------------------------------------------
// Prepared statements
// ---------------------------------------------------------------------------

/// The bytes of a text.
pub open spec fn size(text: Seq<char>) -> nat {
    encode_utf8(text).len()
}

/// What a prepared statement holds on to: its name twice, its text and its
/// types.
pub open spec fn prepared_charge(name: Seq<char>, p: PreparedView) -> nat {
    (2 * size_of::<String>() + size_of::<Vec<u32>>() + 2 * size(name) + size(p.sql) + p.types.len()
        * size_of::<u32>()) as nat
}

/// Counts what a prepared statement holds on to.
pub fn prepared_retained_bytes(name: &str, sql: &str, types: &[u32]) -> (result: Result<
    usize,
    SqlError,
>)
    ensures
        counts(prepared_charge(name@, PreparedView { sql: sql@, types: types@ }), result),
{
    let mut total: usize = 0;
    match charge_retained_items(&mut total, 2, core::mem::size_of::<String>()) {
        Ok(()) => {},
        Err(e) => {
            return Err(e);
        },
    }
    match charge_retained(&mut total, core::mem::size_of::<Vec<u32>>()) {
        Ok(()) => {},
        Err(e) => {
            return Err(e);
        },
    }
    match charge_retained_items(&mut total, text_bytes(name).len(), 2) {
        Ok(()) => {},
        Err(e) => {
            return Err(e);
        },
    }
    match charge_retained(&mut total, text_bytes(sql).len()) {
        Ok(()) => {},
        Err(e) => {
            return Err(e);
        },
    }
    match charge_retained_items(&mut total, types.len(), core::mem::size_of::<u32>()) {
        Ok(()) => {},
        Err(e) => {
            return Err(e);
        },
    }
    Ok(total)
}

// ---------------------------------------------------------------------------
// Memory
// ---------------------------------------------------------------------------

/// The memory of a text or a list: room for a number of items of a size.
#[derive(Clone, Copy, Debug, PartialEq, Eq, Structural)]
pub struct Block {
    pub room: usize,
    pub size: usize,
}

/// What a text or a list needs of memory. Only where it is fixed is there no
/// room for more.
pub struct Need {
    pub items: nat,
    pub size: nat,
    pub fixed: bool,
}

/// Whether a block has the memory that is needed.
pub open spec fn meets(need: Need, block: Block) -> bool {
    &&& block.size == need.size
    &&& block.room >= need.items
    &&& need.fixed ==> block.room == need.items
}

/// Whether some blocks have, one for one, the memory that is needed.
pub open spec fn covers(needs: Seq<Need>, blocks: Seq<Block>) -> bool {
    &&& blocks.len() == needs.len()
    &&& forall|i: int| 0 <= i < needs.len() ==> meets(#[trigger] needs[i], blocks[i])
}

/// The bytes of some blocks.
pub open spec fn heap_charge(blocks: Seq<Block>) -> nat
    decreases blocks.len(),
{
    if blocks.len() == 0 {
        0
    } else {
        heap_charge(blocks.drop_last()) + (blocks.last().room * blocks.last().size) as nat
    }
}

/// The bytes that are needed.
pub open spec fn needed(needs: Seq<Need>) -> nat
    decreases needs.len(),
{
    if needs.len() == 0 {
        0
    } else {
        needed(needs.drop_last()) + needs.last().items * needs.last().size
    }
}

/// What is charged for some blocks is no less than what their contents need.
pub proof fn charges_cover_contents(needs: Seq<Need>, blocks: Seq<Block>)
    requires
        covers(needs, blocks),
    ensures
        needed(needs) <= heap_charge(blocks),
    decreases needs.len(),
{
    if needs.len() > 0 {
        let (need, block) = (needs.last(), blocks.last());
        assert forall|i: int| 0 <= i < needs.len() - 1 implies meets(
            #[trigger] needs.drop_last()[i],
            blocks.drop_last()[i],
        ) by {
            assert(meets(needs[i], blocks[i]));
        }
        charges_cover_contents(needs.drop_last(), blocks.drop_last());
        assert(meets(needs[needs.len() - 1], block));
        assert(need.items * need.size <= block.room * block.size) by (nonlinear_arith)
            requires
                need.items <= block.room,
                need.size == block.size,
        ;
    }
}

proof fn lemma_heap_prefix(blocks: Seq<Block>, i: int)
    requires
        0 <= i <= blocks.len(),
    ensures
        heap_charge(blocks.subrange(0, i)) <= heap_charge(blocks),
    decreases blocks.len(),
{
    if i == blocks.len() {
        assert(blocks.subrange(0, i) == blocks);
    } else {
        let front = blocks.drop_last();
        assert(front.subrange(0, i) == blocks.subrange(0, i));
        lemma_heap_prefix(front, i);
        let last = blocks.last();
        assert(last.room * last.size >= 0) by (nonlinear_arith);
    }
}

/// Counts the bytes of some blocks.
#[verifier::loop_isolation(false)]
pub fn heap_bytes(blocks: &[Block]) -> (result: Result<usize, SqlError>)
    ensures
        counts(heap_charge(blocks@), result),
{
    let mut total: usize = 0;
    let mut i: usize = 0;
    assert(blocks@.subrange(0, 0) == Seq::<Block>::empty());
    while i < blocks.len()
        invariant
            i <= blocks@.len(),
            total == heap_charge(blocks@.subrange(0, i as int)),
        decreases blocks@.len() - i,
    {
        let ghost wider = blocks@.subrange(0, i + 1);
        assert(wider.drop_last() == blocks@.subrange(0, i as int));
        assert(wider.last() == blocks@[i as int]);
        proof {
            let (room, size) = (wider.last().room, wider.last().size);
            assert(room * size >= 0) by (nonlinear_arith);
        }
        match charge_retained_items(&mut total, blocks[i].room, blocks[i].size) {
            Ok(()) => {},
            Err(e) => {
                proof {
                    lemma_heap_prefix(blocks@, i + 1);
                }
                return Err(e);
            },
        }
        i += 1;
    }
    assert(blocks@.subrange(0, i as int) == blocks@);
    Ok(total)
}

/// `Vec::capacity`: how many items a list has room for, which is at least those
/// that it holds. How many more rests on how it grew and on the allocator.
#[verifier::external_body]
fn list_room<T>(list: &Vec<T>) -> (room: usize)
    ensures
        room >= list@.len(),
{
    list.capacity()
}

/// `String::capacity`: how many bytes a text has room for, which is at least
/// those of its characters. How many more rests on how it grew and on the
/// allocator.
#[verifier::external_body]
fn text_room(text: &String) -> (room: usize)
    ensures
        room >= size(text@),
{
    text.capacity()
}

// Whether measuring something added blocks for what it needs.
spec fn adds(before: Seq<Block>, after: Seq<Block>, needs: Seq<Need>) -> bool {
    &&& after.len() == before.len() + needs.len()
    &&& after.subrange(0, before.len() as int) == before
    &&& covers(needs, after.subrange(before.len() as int, after.len() as int))
}

proof fn lemma_adds(a: Seq<Block>, b: Seq<Block>, c: Seq<Block>, first: Seq<Need>, second: Seq<Need>)
    requires
        adds(a, b, first),
        adds(b, c, second),
    ensures
        adds(a, c, first + second),
{
    assert(c.subrange(0, a.len() as int) =~= b.subrange(0, a.len() as int)) by {
        assert forall|i: int| 0 <= i < a.len() implies c[i] == b[i] by {
            assert(c.subrange(0, b.len() as int)[i] == c[i]);
        }
    }
    let needs = first + second;
    let added = c.subrange(a.len() as int, c.len() as int);
    assert forall|i: int| 0 <= i < needs.len() implies meets(#[trigger] needs[i], added[i]) by {
        if i < first.len() {
            assert(meets(first[i], b.subrange(a.len() as int, b.len() as int)[i]));
            assert(c.subrange(0, b.len() as int)[a.len() + i] == c[a.len() + i]);
        } else {
            assert(meets(
                second[i - first.len()],
                c.subrange(b.len() as int, c.len() as int)[i - first.len()],
            ));
        }
    }
}

proof fn lemma_adds_nothing(a: Seq<Block>)
    ensures
        adds(a, a, Seq::empty()),
{
    assert(a.subrange(0, a.len() as int) =~= a);
}

fn note(blocks: &mut Vec<Block>, block: Block, need: Ghost<Need>)
    requires
        meets(need@, block),
    ensures
        adds(old(blocks)@, final(blocks)@, seq![need@]),
{
    let ghost before = blocks@;
    blocks.push(block);
    assert(blocks@.subrange(0, before.len() as int) =~= before);
    assert(blocks@.subrange(before.len() as int, blocks@.len() as int) =~= seq![block]);
}

/// What a text needs.
pub open spec fn text_need(text: Seq<char>) -> Need {
    Need { items: size(text), size: 1, fixed: false }
}

/// What a list of items of a size needs besides what the items need.
pub open spec fn list_need(items: nat, size: nat) -> Need {
    Need { items, size, fixed: false }
}

fn note_text(blocks: &mut Vec<Block>, text: &String)
    ensures
        adds(old(blocks)@, final(blocks)@, seq![text_need(text@)]),
{
    note(blocks, Block { room: text_room(text), size: 1 }, Ghost(text_need(text@)));
}

fn note_list<T>(blocks: &mut Vec<Block>, list: &Vec<T>)
    ensures
        adds(old(blocks)@, final(blocks)@, seq![list_need(list@.len(), size_of::<T>())]),
{
    let block = Block { room: list_room(list), size: core::mem::size_of::<T>() };
    note(blocks, block, Ghost(list_need(list@.len(), size_of::<T>())));
}

#[verifier::loop_isolation(false)]
fn note_texts(blocks: &mut Vec<Block>, texts: &Vec<String>)
    ensures
        adds(
            old(blocks)@,
            final(blocks)@,
            seq![list_need(texts@.len(), size_of::<String>())] + texts@.map_values(
                |t: String| text_need(t@),
            ),
        ),
{
    let ghost start = blocks@;
    note_list(blocks, texts);
    let ghost head = seq![list_need(texts@.len(), size_of::<String>())];
    let ghost needs = texts@.map_values(|t: String| text_need(t@));
    let mut i: usize = 0;
    assert(head + needs.subrange(0, 0) =~= head);
    while i < texts.len()
        invariant
            i <= texts@.len(),
            adds(start, blocks@, head + needs.subrange(0, i as int)),
        decreases texts@.len() - i,
    {
        let ghost before = blocks@;
        note_text(blocks, &texts[i]);
        proof {
            let done = head + needs.subrange(0, i as int);
            lemma_adds(start, before, blocks@, done, seq![needs[i as int]]);
            assert(done + seq![needs[i as int]] =~= head + needs.subrange(0, i + 1));
        }
        i += 1;
    }
    assert(needs.subrange(0, i as int) =~= needs);
}

/// What a value needs besides its own place.
pub open spec fn value_need(value: DatumView) -> Need {
    match value {
        DatumView::Text(t) => text_need(t),
        DatumView::Jsonb(t) => text_need(t),
        DatumView::Bytes(b) => list_need(b.len(), 1),
        _ => Need { items: 0, size: 1, fixed: true },
    }
}

/// The bytes that a value has taken of memory besides its own place.
pub fn datum_heap_bytes(value: &Datum) -> (bytes: usize)
    ensures
        meets(value_need(value@), Block { room: bytes, size: 1 }),
{
    match value {
        Datum::Text(t) => text_room(t),
        Datum::Jsonb(t) => text_room(t),
        Datum::Bytes(b) => list_room(b),
        _ => 0,
    }
}

/// What the values of a row need.
pub open spec fn row_needs(row: Seq<DatumView>) -> Seq<Need> {
    seq![list_need(row.len(), size_of::<Datum>())] + row.map_values(|v: DatumView| value_need(v))
}

#[verifier::loop_isolation(false)]
fn note_row(blocks: &mut Vec<Block>, row: &Vec<Datum>)
    ensures
        adds(old(blocks)@, final(blocks)@, row_needs(row_values(*row))),
{
    let ghost start = blocks@;
    note_list(blocks, row);
    let ghost values = row_values(*row);
    let ghost head = seq![list_need(values.len(), size_of::<Datum>())];
    let ghost needs = values.map_values(|v: DatumView| value_need(v));
    let mut i: usize = 0;
    assert(head + needs.subrange(0, 0) =~= head);
    while i < row.len()
        invariant
            i <= row@.len(),
            adds(start, blocks@, head + needs.subrange(0, i as int)),
        decreases row@.len() - i,
    {
        let ghost before = blocks@;
        assert(values[i as int] == row@[i as int]@);
        let block = Block { room: datum_heap_bytes(&row[i]), size: 1 };
        note(blocks, block, Ghost(needs[i as int]));
        proof {
            let done = head + needs.subrange(0, i as int);
            lemma_adds(start, before, blocks@, done, seq![needs[i as int]]);
            assert(done + seq![needs[i as int]] =~= head + needs.subrange(0, i + 1));
        }
        i += 1;
    }
    assert(needs.subrange(0, i as int) =~= needs);
}

/// What the rows of a result need.
pub open spec fn rows_needs(rows: Seq<Seq<DatumView>>) -> Seq<Need>
    decreases rows.len(),
{
    if rows.len() == 0 {
        Seq::empty()
    } else {
        rows_needs(rows.drop_last()) + row_needs(rows.last())
    }
}

#[verifier::loop_isolation(false)]
fn note_rows(blocks: &mut Vec<Block>, rows: &Vec<Vec<Datum>>)
    ensures
        adds(old(blocks)@, final(blocks)@, rows_needs(rows_values(rows@))),
{
    let ghost start = blocks@;
    let ghost all = rows_values(rows@);
    let mut i: usize = 0;
    proof {
        lemma_adds_nothing(start);
    }
    while i < rows.len()
        invariant
            i <= rows@.len(),
            adds(start, blocks@, rows_needs(all.subrange(0, i as int))),
        decreases rows@.len() - i,
    {
        let ghost before = blocks@;
        let ghost wider = all.subrange(0, i + 1);
        note_row(blocks, &rows[i]);
        proof {
            assert(wider.drop_last() == all.subrange(0, i as int));
            assert(wider.last() == row_values(rows@[i as int]));
            lemma_adds(
                start,
                before,
                blocks@,
                rows_needs(all.subrange(0, i as int)),
                row_needs(wider.last()),
            );
        }
        i += 1;
    }
    assert(all.subrange(0, i as int) == all);
}

/// What the columns of a result need.
pub open spec fn columns_needs(columns: Seq<ColumnView>) -> Seq<Need> {
    seq![list_need(columns.len(), size_of::<ResultColumn>())] + columns.map_values(
        |c: ColumnView| text_need(c.name),
    )
}

#[verifier::loop_isolation(false)]
fn note_columns(blocks: &mut Vec<Block>, columns: &Vec<ResultColumn>)
    ensures
        adds(old(blocks)@, final(blocks)@, columns_needs(column_views(columns@))),
{
    let ghost start = blocks@;
    note_list(blocks, columns);
    let ghost held = column_views(columns@);
    let ghost head = seq![list_need(held.len(), size_of::<ResultColumn>())];
    let ghost needs = held.map_values(|c: ColumnView| text_need(c.name));
    let mut i: usize = 0;
    assert(head + needs.subrange(0, 0) =~= head);
    while i < columns.len()
        invariant
            i <= columns@.len(),
            adds(start, blocks@, head + needs.subrange(0, i as int)),
        decreases columns@.len() - i,
    {
        let ghost before = blocks@;
        assert(held[i as int] == columns@[i as int]@);
        note_text(blocks, &columns[i].name);
        proof {
            let done = head + needs.subrange(0, i as int);
            lemma_adds(start, before, blocks@, done, seq![needs[i as int]]);
            assert(done + seq![needs[i as int]] =~= head + needs.subrange(0, i + 1));
        }
        i += 1;
    }
    assert(needs.subrange(0, i as int) =~= needs);
}

/// What a result needs besides its own place.
pub open spec fn result_needs(r: ResultView) -> Seq<Need> {
    columns_needs(r.columns) + seq![list_need(r.rows.len(), size_of::<Vec<Datum>>())] + rows_needs(
        r.rows,
    ) + seq![text_need(r.command_tag)] + seq![
        list_need(r.notices.len(), size_of::<String>()),
    ] + r.notices.map_values(|t: Seq<char>| text_need(t))
}

fn note_result(blocks: &mut Vec<Block>, r: &QueryResult)
    ensures
        adds(old(blocks)@, final(blocks)@, result_needs(r@)),
{
    let ghost start = blocks@;
    let ghost v = r@;
    note_columns(blocks, &r.columns);
    let ghost mut done = columns_needs(v.columns);
    let ghost b1 = blocks@;
    note_list(blocks, &r.rows);
    let ghost rows_list = seq![list_need(v.rows.len(), size_of::<Vec<Datum>>())];
    let ghost b2 = blocks@;
    note_rows(blocks, &r.rows);
    let ghost b3 = blocks@;
    note_text(blocks, &r.command_tag);
    let ghost b4 = blocks@;
    note_texts(blocks, &r.notices);
    proof {
        lemma_adds(start, b1, b2, done, rows_list);
        done = done + rows_list;
        lemma_adds(start, b2, b3, done, rows_needs(v.rows));
        done = done + rows_needs(v.rows);
        lemma_adds(start, b3, b4, done, seq![text_need(v.command_tag)]);
        done = done + seq![text_need(v.command_tag)];
        let notices_list = seq![list_need(v.notices.len(), size_of::<String>())];
        let notices = v.notices.map_values(|t: Seq<char>| text_need(t));
        assert(r.notices@.map_values(|t: String| text_need(t@)) =~= notices);
        lemma_adds(start, b4, blocks@, done, notices_list + notices);
        assert(done + (notices_list + notices) =~= result_needs(v));
    }
}

proof fn lemma_adds_all(after: Seq<Block>, needs: Seq<Need>)
    requires
        adds(Seq::empty(), after, needs),
    ensures
        covers(needs, after),
{
    assert(after.subrange(0, after.len() as int) =~= after);
}

/// Counts the memory that a result has taken besides its own place.
pub fn pending_result_heap_bytes(r: &QueryResult) -> (result: Result<usize, SqlError>)
    ensures
        exists|blocks: Seq<Block>| #[trigger]
            covers(result_needs(r@), blocks) && counts(heap_charge(blocks), result),
{
    let mut blocks: Vec<Block> = Vec::new();
    assert(blocks@ =~= Seq::<Block>::empty());
    note_result(&mut blocks, r);
    proof {
        lemma_adds_all(blocks@, result_needs(r@));
    }
    heap_bytes(blocks.as_slice())
}

/// What a portal needs besides its own place and its name.
pub open spec fn portal_needs(p: PortalView) -> Seq<Need> {
    seq![text_need(p.sql)] + row_needs(p.params) + seq![
        list_need(p.result_formats.len(), size_of::<u16>()),
    ] + match p.pending {
        Some(r) => result_needs(r),
        None => Seq::empty(),
    }
}

/// The memory that a portal has taken besides its own place and its name.
pub fn portal_blocks(portal: &Portal) -> (blocks: Vec<Block>)
    ensures
        covers(portal_needs(portal@), blocks@),
{
    let ghost p = portal@;
    let mut blocks: Vec<Block> = Vec::new();
    let ghost start = blocks@;
    assert(start =~= Seq::<Block>::empty());
    note_text(&mut blocks, &portal.sql);
    let ghost b1 = blocks@;
    note_row(&mut blocks, &portal.params);
    let ghost b2 = blocks@;
    note_list(&mut blocks, &portal.result_formats);
    let ghost b3 = blocks@;
    let ghost formats = seq![list_need(p.result_formats.len(), size_of::<u16>())];
    proof {
        lemma_adds(start, b1, b2, seq![text_need(p.sql)], row_needs(p.params));
        lemma_adds(start, b2, b3, seq![text_need(p.sql)] + row_needs(p.params), formats);
    }
    let ghost done = seq![text_need(p.sql)] + row_needs(p.params) + formats;
    if let Some(result) = &portal.pending {
        note_result(&mut blocks, result);
        proof {
            lemma_adds(start, b3, blocks@, done, result_needs(result@));
        }
    } else {
        assert(done + Seq::<Need>::empty() =~= done);
    }
    proof {
        lemma_adds_all(blocks@, portal_needs(p));
    }
    blocks
}

/// What a portal holds on to: its place, its name, and the memory that it had
/// taken when it was kept.
pub open spec fn portal_charge(name: Seq<char>, p: PortalView) -> nat {
    size_of::<Portal>() + size(name) + p.heap
}

/// Counts what a portal with a name holds on to that has taken some memory.
pub fn held_retained_bytes(name: &str, heap: usize) -> (result: Result<usize, SqlError>)
    ensures
        counts(size_of::<Portal>() + size(name@) + heap as nat, result),
{
    let mut total: usize = core::mem::size_of::<Portal>();
    match charge_retained(&mut total, text_bytes(name).len()) {
        Ok(()) => {},
        Err(e) => {
            return Err(e);
        },
    }
    match charge_retained(&mut total, heap) {
        Ok(()) => Ok(total),
        Err(e) => Err(e),
    }
}

/// Counts what a portal holds on to by the memory that it has taken by now.
pub fn portal_retained_bytes(name: &str, portal: &Portal) -> (result: Result<usize, SqlError>)
    ensures
        exists|blocks: Seq<Block>| #[trigger]
            covers(portal_needs(portal@), blocks) && counts(
                size_of::<Portal>() + size(name@) + heap_charge(blocks),
                result,
            ),
{
    let blocks = portal_blocks(portal);
    assert(covers(portal_needs(portal@), blocks@));
    match heap_bytes(blocks.as_slice()) {
        Ok(heap) => held_retained_bytes(name, heap),
        Err(e) => Err(e),
    }
}

// ---------------------------------------------------------------------------
// The limit
// ---------------------------------------------------------------------------

/// What is held on to after a change, or why the change is refused.
pub open spec fn projected(current: int, removed: int, added: int, limit: int) -> Result<
    int,
    SqlErrorView,
> {
    if removed > current {
        Err(sql_error("XX000"@, "extended-query accounting underflow"@))
    } else if current - removed + added > usize::MAX {
        Err(size_overflow())
    } else if current - removed + added > limit {
        Err(sql_error("54000"@, "extended-query retained state exceeds configured limit"@))
    } else {
        Ok(current - removed + added)
    }
}

/// Counts what is held on to after a change.
pub fn projected_retained_bytes(current: usize, removed: usize, added: usize, limit: usize) -> (result:
    Result<usize, SqlError>)
    ensures
        match result {
            Ok(bytes) => projected(
                current as int,
                removed as int,
                added as int,
                limit as int,
            ) == Ok::<_, SqlErrorView>(bytes as int),
            Err(e) => projected(
                current as int,
                removed as int,
                added as int,
                limit as int,
            ) == Err::<int, _>(e@),
        },
{
    let left = match current.checked_sub(removed) {
        Some(left) => left,
        None => {
            return Err(SqlError::new("XX000", "extended-query accounting underflow"));
        },
    };
    let bytes = match left.checked_add(added) {
        Some(bytes) => bytes,
        None => {
            return Err(retained_size_overflow());
        },
    };
    if bytes > limit {
        return Err(
            SqlError::new("54000", "extended-query retained state exceeds configured limit"),
        );
    }
    Ok(bytes)
}

// ---------------------------------------------------------------------------
// Sums over tables
// ---------------------------------------------------------------------------

/// What everything in a table holds on to.
pub open spec fn table_charge<V>(
    table: Map<Seq<char>, V>,
    charge: spec_fn(Seq<char>, V) -> nat,
) -> nat
    decreases table.dom().len(),
    when table.dom().finite()
{
    if table.dom().len() == 0 {
        0
    } else {
        let name = table.dom().choose();
        charge(name, table[name]) + table_charge(table.remove(name), charge)
    }
}

/// Taking one entry out of a table takes its charge away.
pub proof fn lemma_table_charge<V>(
    table: Map<Seq<char>, V>,
    charge: spec_fn(Seq<char>, V) -> nat,
    name: Seq<char>,
)
    requires
        table.dom().finite(),
        table.dom().contains(name),
    ensures
        table_charge(table, charge) == charge(name, table[name]) + table_charge(
            table.remove(name),
            charge,
        ),
    decreases table.dom().len(),
{
    let first = table.dom().choose();
    assert(table.dom().len() > 0);
    assert(table.dom().contains(first));
    if first != name {
        let rest = table.remove(first);
        assert(rest.dom().contains(name));
        lemma_table_charge(rest, charge, name);
        let other = table.remove(name);
        assert(other.dom().contains(first));
        assert(other.dom().len() < table.dom().len());
        lemma_table_charge(other, charge, first);
        assert(rest.remove(name) =~= other.remove(first));
    }
}

/// Putting one entry into a table adds its charge, in place of the charge of
/// the entry that it replaces.
pub proof fn lemma_table_charge_insert<V>(
    table: Map<Seq<char>, V>,
    charge: spec_fn(Seq<char>, V) -> nat,
    name: Seq<char>,
    value: V,
)
    requires
        table.dom().finite(),
    ensures
        table_charge(table.insert(name, value), charge) == charge(name, value) + table_charge(
            table.remove(name),
            charge,
        ),
{
    let wider = table.insert(name, value);
    lemma_table_charge(wider, charge, name);
    assert(wider.remove(name) =~= table.remove(name));
}

} // verus!
