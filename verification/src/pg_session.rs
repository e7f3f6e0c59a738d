//! The extended-query side of a connection: the statements and portals that a
//! client keeps, what each message does to them, and what is answered. What the
//! SQL engine says is handed in.

use crate::error::{sql_error, SqlError, SqlErrorView};
use crate::names::NameMap;
use crate::pg_fields::{
    bind_rest, bind_start, only_text, parse_fields, read_bind_rest, read_bind_start, read_only_text,
    read_parse,
};
use crate::pg_message::{
    bare, bare_message, error_message, error_view, one_message, Message, MessageView, Output,
    OutputView, KIND_BOUND, KIND_CLOSED, KIND_PARSED,
};
use crate::pg_query::{
    infer_parameter_types, inferred_types, is_empty_query, named_resource_limit_reached,
    names_used_up, says_nothing, statement_exceeds_limit, MAX_STATEMENT_BYTES,
};
use crate::pg_retained::{
    countable, covers, heap_bytes, heap_charge, held_retained_bytes, portal_blocks, portal_charge,
    portal_needs, prepared_charge, prepared_retained_bytes, projected, projected_retained_bytes,
    size, table_charge, Block, Portal, PortalView, Prepared, PreparedView,
    MAX_RETAINED_EXTENDED_QUERY_BYTES,
};
use crate::pg_values::FloatReadings;
use crate::text::{owned, text_chars};
use vstd::prelude::*;
use vstd::string::*;

verus! {

pub const MAX_NAMED_PREPARED: usize = 256;

pub const MAX_NAMED_PORTALS: usize = 256;

/// The letters of the objects that Describe and Close name.
pub const TARGET_PORTAL: u8 = 0x50;

pub const TARGET_STATEMENT: u8 = 0x53;

/// What a connection keeps between messages.
pub struct Connection {
    pub prepared: NameMap<Prepared>,
    pub portals: NameMap<Portal>,
    pub retained_extended_query_bytes: usize,
    pub extended_query_state_limit: usize,
    /// Set by an error until the next Sync.
    pub extended_error: bool,
}

/// What a [`Connection`] keeps.
#[verifier::ext_equal]
pub struct ConnectionView {
    pub prepared: Map<Seq<char>, PreparedView>,
    pub portals: Map<Seq<char>, PortalView>,
    pub retained: int,
    pub limit: int,
    pub failed: bool,
}

impl View for Connection {
    type V = ConnectionView;

    open spec fn view(&self) -> ConnectionView {
        ConnectionView {
            prepared: self.prepared@.map_values(|p: Prepared| p@),
            portals: self.portals@.map_values(|p: Portal| p@),
            retained: self.retained_extended_query_bytes as int,
            limit: self.extended_query_state_limit as int,
            failed: self.extended_error,
        }
    }
}

/// What each prepared statement is charged with.
pub open spec fn statement_charges() -> spec_fn(Seq<char>, PreparedView) -> nat {
    |name: Seq<char>, p: PreparedView| prepared_charge(name, p)
}

/// What each portal is charged with.
pub open spec fn portal_charges() -> spec_fn(Seq<char>, PortalView) -> nat {
    |name: Seq<char>, p: PortalView| portal_charge(name, p)
}

impl ConnectionView {
    /// Whether what is held on to is counted to the byte.
    pub open spec fn is_accounted(self) -> bool {
        &&& self.prepared.dom().finite()
        &&& self.portals.dom().finite()
        &&& self.retained == table_charge(self.prepared, statement_charges()) + table_charge(
            self.portals,
            portal_charges(),
        )
    }

    /// What a prepared statement is charged with; nothing where there is none.
    pub open spec fn prepared_entry(self, name: Seq<char>) -> Result<nat, SqlErrorView> {
        if self.prepared.dom().contains(name) {
            countable(prepared_charge(name, self.prepared[name]))
        } else {
            Ok(0)
        }
    }

    /// What a portal is charged with; nothing where there is none.
    pub open spec fn portal_entry(self, name: Seq<char>) -> Result<nat, SqlErrorView> {
        if self.portals.dom().contains(name) {
            countable(portal_charge(name, self.portals[name]))
        } else {
            Ok(0)
        }
    }

    /// The connection after a failure, and what the client is told.
    pub open spec fn fails(self, e: SqlErrorView) -> (ConnectionView, MessageView) {
        (ConnectionView { failed: true, ..self }, error_view("ERROR"@, e))
    }

    /// The connection after a failure, and what the client is told.
    pub open spec fn breaks(self, e: SqlErrorView) -> (ConnectionView, OutputView) {
        (
            ConnectionView { failed: true, ..self },
            OutputView { messages: seq![error_view("ERROR"@, e)], fault: None },
        )
    }
}

// ---------------------------------------------------------------------------
// Parse
// ---------------------------------------------------------------------------

/// A statement that may be prepared, and what is held on to with it.
pub struct ParsePlan {
    pub name: String,
    pub sql: String,
    pub types: Vec<u32>,
    pub retained: usize,
}

/// What a [`ParsePlan`] says.
pub struct ParseView {
    pub name: Seq<char>,
    pub sql: Seq<char>,
    pub types: Seq<u32>,
    pub retained: int,
}

impl View for ParsePlan {
    type V = ParseView;

    open spec fn view(&self) -> ParseView {
        ParseView {
            name: self.name@,
            sql: self.sql@,
            types: self.types@,
            retained: self.retained as int,
        }
    }
}

/// What is held on to once a statement is prepared: it replaces one of the same
/// name, and an unnamed one also the unnamed portal.
pub open spec fn parse_retained(
    c: ConnectionView,
    name: Seq<char>,
    sql: Seq<char>,
    types: Seq<u32>,
) -> Result<int, SqlErrorView> {
    let unnamed = if name.len() == 0 {
        c.portal_entry(Seq::empty())
    } else {
        Ok(0)
    };
    match (c.prepared_entry(name), unnamed) {
        (Err(e), _) => Err(e),
        (_, Err(e)) => Err(e),
        (Ok(statement), Ok(portal)) => if statement + portal > usize::MAX {
            Err(sql_error("XX000"@, "extended-query accounting overflow"@))
        } else {
            match countable(prepared_charge(name, PreparedView { sql, types })) {
                Err(e) => Err(e),
                Ok(added) => projected(
                    c.retained,
                    (statement + portal) as int,
                    added as int,
                    c.limit,
                ),
            }
        },
    }
}

/// The statement that a Parse message would prepare, or why it may not.
pub open spec fn parse_plan(c: ConnectionView, body: Seq<u8>) -> Result<ParseView, SqlErrorView> {
    match parse_fields(body) {
        Err(e) => Err(e),
        Ok((name, sql, supplied)) => if size(sql) > MAX_STATEMENT_BYTES {
            Err(sql_error("54000"@, "prepared statement exceeds configured size limit"@))
        } else if name.len() != 0 && c.prepared.dom().contains(name) {
            Err(sql_error("42P05"@, "prepared statement already exists"@))
        } else if names_used_up(c.prepared, name, MAX_NAMED_PREPARED as nat) {
            Err(sql_error("54000"@, "too many named prepared statements"@))
        } else {
            match inferred_types(sql, supplied) {
                Err(e) => Err(e),
                Ok(types) => match parse_retained(c, name, sql, types) {
                    Err(e) => Err(e),
                    Ok(retained) => Ok(ParseView { name, sql, types, retained }),
                },
            }
        },
    }
}

/// The connection once a statement is prepared. Preparing the unnamed statement
/// drops the unnamed portal.
pub open spec fn after_parse(c: ConnectionView, plan: ParseView) -> ConnectionView {
    ConnectionView {
        prepared: c.prepared.insert(plan.name, PreparedView { sql: plan.sql, types: plan.types }),
        portals: if plan.name.len() == 0 {
            c.portals.remove(Seq::empty())
        } else {
            c.portals
        },
        retained: plan.retained,
        ..c
    }
}

/// What a Parse message does; `refusal` is what the engine has against the
/// statement. An empty statement is not put to the engine.
pub open spec fn parsed(c: ConnectionView, body: Seq<u8>, refusal: Option<SqlErrorView>) -> (
    ConnectionView,
    MessageView,
) {
    match parse_plan(c, body) {
        Err(e) => c.fails(e),
        Ok(plan) => if !says_nothing(plan.sql) && refusal is Some {
            c.fails(refusal->0)
        } else {
            (after_parse(c, plan), bare(KIND_PARSED))
        },
    }
}

/// The engine's refusal.
pub open spec fn refusal_view(refusal: Result<(), SqlError>) -> Option<SqlErrorView> {
    match refusal {
        Ok(()) => None,
        Err(e) => Some(e@),
    }
}

impl Connection {
    /// A connection that keeps nothing yet.
    pub fn new() -> (c: Connection)
        ensures
            c@.prepared == Map::<Seq<char>, PreparedView>::empty(),
            c@.portals == Map::<Seq<char>, PortalView>::empty(),
            c@.retained == 0,
            c@.limit == MAX_RETAINED_EXTENDED_QUERY_BYTES,
            !c@.failed,
            c@.is_accounted(),
    {
        let c = Connection {
            prepared: NameMap::new(),
            portals: NameMap::new(),
            retained_extended_query_bytes: 0,
            extended_query_state_limit: MAX_RETAINED_EXTENDED_QUERY_BYTES,
            extended_error: false,
        };
        assert(c@.prepared =~= Map::<Seq<char>, PreparedView>::empty());
        assert(c@.portals =~= Map::<Seq<char>, PortalView>::empty());
        c
    }

    /// Notes a failure, and says what the client is told.
    fn extended_failure(&mut self, e: &SqlError) -> (message: Message)
        ensures
            (final(self)@, message@) == old(self)@.fails(e@),
    {
        self.extended_error = true;
        let message = error_message(e);
        assert(self@ =~= (ConnectionView { failed: true, ..old(self)@ }));
        message
    }

    pub(crate) fn break_off(&mut self, e: &SqlError) -> (output: Output)
        ensures
            (final(self)@, output@) == old(self)@.breaks(e@),
    {
        let message = self.extended_failure(e);
        let output = Output { messages: one_message(message), fault: None };
        assert(output@ =~= (OutputView {
            messages: seq![error_view("ERROR"@, e@)],
            fault: None,
        }));
        output
    }

    fn prepared_entry_bytes(&self, name: &str) -> (result: Result<usize, SqlError>)
        ensures
            match result {
                Ok(bytes) => self@.prepared_entry(name@) == Ok::<nat, SqlErrorView>(bytes as nat),
                Err(e) => self@.prepared_entry(name@) == Err::<nat, SqlErrorView>(e@),
            },
    {
        match self.prepared.get(name) {
            Some(p) => {
                assert(p@ == self@.prepared[name@]);
                assert(p@ == (PreparedView { sql: p.sql@, types: p.types@ }));
                prepared_retained_bytes(name, p.sql.as_str(), p.types.as_slice())
            },
            None => Ok(0),
        }
    }

    fn portal_entry_bytes(&self, name: &str) -> (result: Result<usize, SqlError>)
        ensures
            match result {
                Ok(bytes) => self@.portal_entry(name@) == Ok::<nat, SqlErrorView>(bytes as nat),
                Err(e) => self@.portal_entry(name@) == Err::<nat, SqlErrorView>(e@),
            },
    {
        match self.portals.get(name) {
            Some(p) => {
                assert(p@ == self@.portals[name@]);
                held_retained_bytes(name, p.heap)
            },
            None => Ok(0),
        }
    }

    fn projected_extended_query_bytes(&self, removed: usize, added: usize) -> (result: Result<
        usize,
        SqlError,
    >)
        ensures
            match result {
                Ok(bytes) => projected(
                    self@.retained,
                    removed as int,
                    added as int,
                    self@.limit,
                ) == Ok::<_, SqlErrorView>(bytes as int),
                Err(e) => projected(
                    self@.retained,
                    removed as int,
                    added as int,
                    self@.limit,
                ) == Err::<int, _>(e@),
            },
    {
        projected_retained_bytes(
            self.retained_extended_query_bytes,
            removed,
            added,
            self.extended_query_state_limit,
        )
    }

    fn plan_retained(&self, name: &str, sql: &str, types: &[u32]) -> (result: Result<
        usize,
        SqlError,
    >)
        ensures
            match result {
                Ok(bytes) => parse_retained(self@, name@, sql@, types@) == Ok::<_, SqlErrorView>(
                    bytes as int,
                ),
                Err(e) => parse_retained(self@, name@, sql@, types@) == Err::<int, _>(e@),
            },
    {
        let statement = match self.prepared_entry_bytes(name) {
            Ok(bytes) => bytes,
            Err(e) => {
                return Err(e);
            },
        };
        proof {
            reveal_strlit("");
            assert(""@ =~= Seq::<char>::empty());
        }
        let portal = if text_chars(name).len() == 0 {
            match self.portal_entry_bytes("") {
                Ok(bytes) => bytes,
                Err(e) => {
                    return Err(e);
                },
            }
        } else {
            0
        };
        let removed = match statement.checked_add(portal) {
            Some(bytes) => bytes,
            None => {
                return Err(SqlError::new("XX000", "extended-query accounting overflow"));
            },
        };
        let added = match prepared_retained_bytes(name, sql, types) {
            Ok(bytes) => bytes,
            Err(e) => {
                return Err(e);
            },
        };
        self.projected_extended_query_bytes(removed, added)
    }

    /// Finds the statement that a Parse message would prepare.
    pub fn plan_parse(&self, body: &[u8]) -> (result: Result<ParsePlan, SqlError>)
        ensures
            match result {
                Ok(plan) => parse_plan(self@, body@) == Ok::<_, SqlErrorView>(plan@),
                Err(e) => parse_plan(self@, body@) == Err::<ParseView, _>(e@),
            },
    {
        let (name, sql, supplied) = match read_parse(body) {
            Ok(fields) => fields,
            Err(e) => {
                return Err(e);
            },
        };
        if statement_exceeds_limit(sql.as_str()) {
            return Err(
                SqlError::new("54000", "prepared statement exceeds configured size limit"),
            );
        }
        assert(self@.prepared.dom() =~= self.prepared@.dom());
        if text_chars(name.as_str()).len() != 0 && self.prepared.contains_key(name.as_str()) {
            return Err(SqlError::new("42P05", "prepared statement already exists"));
        }
        if named_resource_limit_reached(&self.prepared, name.as_str(), MAX_NAMED_PREPARED) {
            return Err(SqlError::new("54000", "too many named prepared statements"));
        }
        let types = match infer_parameter_types(sql.as_str(), supplied.as_slice()) {
            Ok(types) => types,
            Err(e) => {
                return Err(e);
            },
        };
        match self.plan_retained(name.as_str(), sql.as_str(), types.as_slice()) {
            Ok(retained) => Ok(ParsePlan { name, sql, types, retained }),
            Err(e) => Err(e),
        }
    }

    /// The statement that the engine is to judge before a Parse message is
    /// answered: its name and its text.
    pub fn statement_to_prepare(&self, body: &[u8]) -> (statement: Option<(String, String)>)
        ensures
            match statement {
                Some((name, sql)) => parse_plan(self@, body@) matches Ok(plan) && !says_nothing(
                    plan.sql,
                ) && plan.name == name@ && plan.sql == sql@,
                None => parse_plan(self@, body@) matches Ok(plan) ==> says_nothing(plan.sql),
            },
    {
        match self.plan_parse(body) {
            Ok(plan) => if is_empty_query(plan.sql.as_str()) {
                None
            } else {
                Some((plan.name, plan.sql))
            },
            Err(_) => None,
        }
    }

    /// Answers a Parse message, with what the engine says of the statement.
    pub fn parse(&mut self, body: &[u8], judged: Result<(), SqlError>) -> (message: Message)
        ensures
            (final(self)@, message@) == parsed(old(self)@, body@, refusal_view(judged)),
    {
        let plan = match self.plan_parse(body) {
            Ok(plan) => plan,
            Err(e) => {
                return self.extended_failure(&e);
            },
        };
        if !is_empty_query(plan.sql.as_str()) {
            match judged {
                Ok(()) => {},
                Err(e) => {
                    return self.extended_failure(&e);
                },
            }
        }
        let ghost before = self@;
        let ghost planned = plan@;
        if text_chars(plan.name.as_str()).len() == 0 {
            proof {
                reveal_strlit("");
                assert(""@ =~= Seq::<char>::empty());
            }
            let _dropped = self.portals.remove("");
        }
        let prepared = Prepared { sql: plan.sql, types: plan.types };
        self.prepared.insert(plan.name, prepared);
        self.retained_extended_query_bytes = plan.retained;
        assert(self@ =~= after_parse(before, planned)) by {
            assert(self@.prepared =~= after_parse(before, planned).prepared);
            assert(self@.portals =~= after_parse(before, planned).portals);
        }
        bare_message(KIND_PARSED)
    }
}

// ---------------------------------------------------------------------------
// Bind
// ---------------------------------------------------------------------------

/// The portal that a Bind message asks for, with its name. Its memory is not
/// measured yet.
pub open spec fn bind_fields(c: ConnectionView, body: Seq<u8>, floats: FloatReadings) -> Result<
    (Seq<char>, PortalView),
    SqlErrorView,
> {
    match bind_start(body) {
        Err(e) => Err(e),
        Ok((portal, statement, formats, count, at)) => if !c.prepared.dom().contains(statement) {
            Err(sql_error("26000"@, "prepared statement does not exist"@))
        } else {
            let p = c.prepared[statement];
            if count != p.types.len() {
                Err(
                    sql_error("08P01"@, "bind message supplies an incorrect number of parameters"@),
                )
            } else {
                match bind_rest(body, at, p.types, formats, floats) {
                    Err(e) => Err(e),
                    Ok((params, result_formats)) => Ok(
                        (
                            portal,
                            PortalView {
                                sql: p.sql,
                                params,
                                result_formats,
                                pending: None,
                                described: false,
                                heap: 0,
                            },
                        ),
                    ),
                }
            }
        },
    }
}

/// What is held on to once a portal replaces one of the same name.
pub open spec fn portal_retained(c: ConnectionView, name: Seq<char>, p: PortalView) -> Result<
    int,
    SqlErrorView,
> {
    match c.portal_entry(name) {
        Err(e) => Err(e),
        Ok(removed) => match countable(portal_charge(name, p)) {
            Err(e) => Err(e),
            Ok(added) => projected(c.retained, removed as int, added as int, c.limit),
        },
    }
}

/// The connection with a portal.
pub open spec fn with_portal(c: ConnectionView, name: Seq<char>, p: PortalView, retained: int) -> ConnectionView {
    ConnectionView { portals: c.portals.insert(name, p), retained, ..c }
}

/// A portal whose memory was measured.
pub open spec fn measured(p: PortalView, blocks: Seq<Block>) -> PortalView {
    PortalView { heap: heap_charge(blocks), ..p }
}

/// What keeping the portal that a Bind message asks for does; `blocks` is the
/// memory that it has taken. Only the unnamed portal is replaced.
pub open spec fn portal_kept(
    c: ConnectionView,
    asked: Result<(Seq<char>, PortalView), SqlErrorView>,
    blocks: Seq<Block>,
) -> (ConnectionView, MessageView) {
    match asked {
        Err(e) => c.fails(e),
        Ok((name, p)) => if name.len() != 0 && c.portals.dom().contains(name) {
            c.fails(sql_error("42P03"@, "portal already exists"@))
        } else if names_used_up(c.portals, name, MAX_NAMED_PORTALS as nat) {
            c.fails(sql_error("54000"@, "too many named portals"@))
        } else {
            match portal_retained(c, name, measured(p, blocks)) {
                Err(e) => c.fails(e),
                Ok(retained) => (
                    with_portal(c, name, measured(p, blocks), retained),
                    bare(KIND_BOUND),
                ),
            }
        },
    }
}

/// What a Bind message does, where the portal has taken some memory.
pub open spec fn bound(
    c: ConnectionView,
    body: Seq<u8>,
    floats: FloatReadings,
    blocks: Seq<Block>,
) -> (ConnectionView, MessageView) {
    portal_kept(c, bind_fields(c, body, floats), blocks)
}

/// Whether some blocks may be the memory of the portal that is asked for.
pub open spec fn may_take(
    asked: Result<(Seq<char>, PortalView), SqlErrorView>,
    blocks: Seq<Block>,
) -> bool {
    asked matches Ok((_, p)) ==> covers(portal_needs(p), blocks)
}

/// The portal that a Bind message asks for, as it was read.
pub open spec fn asked_view(asked: Result<(String, Portal), SqlError>) -> Result<
    (Seq<char>, PortalView),
    SqlErrorView,
> {
    match asked {
        Ok((name, p)) => Ok((name@, p@)),
        Err(e) => Err(e@),
    }
}

impl Connection {
    /// Reads the portal that a Bind message asks for.
    pub fn read_bind(&self, body: &[u8], floats: &FloatReadings) -> (asked: Result<
        (String, Portal),
        SqlError,
    >)
        ensures
            asked_view(asked) == bind_fields(self@, body@, *floats),
    {
        let start = match read_bind_start(body) {
            Ok(start) => start,
            Err(e) => {
                return Err(e);
            },
        };
        let prepared = match self.prepared.get(start.statement.as_str()) {
            Some(prepared) => prepared,
            None => {
                return Err(SqlError::new("26000", "prepared statement does not exist"));
            },
        };
        assert(prepared@ == self@.prepared[start.statement@]);
        if start.count as usize != prepared.types.len() {
            return Err(
                SqlError::new("08P01", "bind message supplies an incorrect number of parameters"),
            );
        }
        match read_bind_rest(
            body,
            start.next,
            prepared.types.as_slice(),
            start.formats.as_slice(),
            floats,
        ) {
            Ok((params, result_formats)) => {
                let portal = Portal {
                    sql: owned(prepared.sql.as_str()),
                    params,
                    result_formats,
                    pending: None,
                    described: false,
                    heap: 0,
                };
                Ok((start.portal, portal))
            },
            Err(e) => Err(e),
        }
    }

    fn plan_portal(&self, name: &str, portal: &Portal) -> (result: Result<usize, SqlError>)
        ensures
            match result {
                Ok(bytes) => portal_retained(self@, name@, portal@) == Ok::<_, SqlErrorView>(
                    bytes as int,
                ),
                Err(e) => portal_retained(self@, name@, portal@) == Err::<int, _>(e@),
            },
    {
        let removed = match self.portal_entry_bytes(name) {
            Ok(bytes) => bytes,
            Err(e) => {
                return Err(e);
            },
        };
        let added = match held_retained_bytes(name, portal.heap) {
            Ok(bytes) => bytes,
            Err(e) => {
                return Err(e);
            },
        };
        self.projected_extended_query_bytes(removed, added)
    }

    pub(crate) fn put_portal(&mut self, name: String, portal: Portal, retained: usize)
        ensures
            final(self)@ == with_portal(old(self)@, name@, portal@, retained as int),
    {
        let ghost before = self@;
        let ghost key = name@;
        self.portals.insert(name, portal);
        self.retained_extended_query_bytes = retained;
        assert(self@.portals =~= before.portals.insert(key, portal@));
        assert(self@.prepared =~= before.prepared);
        assert(self@ =~= with_portal(before, key, portal@, retained as int));
    }

    /// Answers a Bind message, with what reading its texts as floating-point
    /// numbers gave. The portal is charged with the memory that it has taken.
    pub fn bind(&mut self, body: &[u8], floats: &FloatReadings) -> (message: Message)
        ensures
            exists|blocks: Seq<Block>| #[trigger]
                may_take(bind_fields(old(self)@, body@, *floats), blocks) && (
                    final(self)@,
                    message@,
                ) == bound(old(self)@, body@, *floats, blocks),
    {
        let asked = self.read_bind(body, floats);
        let blocks = match &asked {
            Ok((_, portal)) => portal_blocks(portal),
            Err(_) => Vec::new(),
        };
        assert(may_take(bind_fields(self@, body@, *floats), blocks@));
        self.keep_bound(asked, blocks.as_slice())
    }

    /// Answers a Bind message, with the portal that it asks for and the memory
    /// that the portal has taken.
    pub fn keep_bound(&mut self, asked: Result<(String, Portal), SqlError>, blocks: &[Block]) -> (message:
        Message)
        ensures
            (final(self)@, message@) == portal_kept(old(self)@, asked_view(asked), blocks@),
    {
        let (name, portal) = match asked {
            Ok(found) => found,
            Err(e) => {
                return self.extended_failure(&e);
            },
        };
        assert(self@.portals.dom() =~= self.portals@.dom());
        if text_chars(name.as_str()).len() != 0 && self.portals.contains_key(name.as_str()) {
            return self.extended_failure(&SqlError::new("42P03", "portal already exists"));
        }
        if named_resource_limit_reached(&self.portals, name.as_str(), MAX_NAMED_PORTALS) {
            return self.extended_failure(&SqlError::new("54000", "too many named portals"));
        }
        let heap = match heap_bytes(blocks) {
            Ok(heap) => heap,
            Err(e) => {
                return self.extended_failure(&e);
            },
        };
        let ghost p = measured(portal@, blocks@);
        let portal = Portal {
            sql: portal.sql,
            params: portal.params,
            result_formats: portal.result_formats,
            pending: portal.pending,
            described: portal.described,
            heap,
        };
        assert(portal@ =~= p);
        match self.plan_portal(name.as_str(), &portal) {
            Ok(retained) => {
                self.put_portal(name, portal, retained);
                bare_message(KIND_BOUND)
            },
            Err(e) => self.extended_failure(&e),
        }
    }
}

// ---------------------------------------------------------------------------
// Close
// ---------------------------------------------------------------------------

/// The kind and the name of what a message names.
pub open spec fn target_fields(
    body: Seq<u8>,
    malformed: Seq<char>,
    text: Seq<char>,
    message: Seq<char>,
) -> Result<(u8, Seq<char>), SqlErrorView> {
    if body.len() == 0 {
        Err(sql_error("08P01"@, malformed))
    } else {
        match only_text(body.subrange(1, body.len() as int), text, message) {
            Err(e) => Err(e),
            Ok(name) => Ok((body[0], name)),
        }
    }
}

pub(crate) fn read_target(
    body: &[u8],
    malformed: &'static str,
    text: &'static str,
    message: &'static str,
) -> (result: Result<(u8, String), SqlError>)
    ensures
        match result {
            Ok((kind, name)) => target_fields(body@, malformed@, text@, message@) == Ok::<
                _,
                SqlErrorView,
            >((kind, name@)),
            Err(e) => target_fields(body@, malformed@, text@, message@) == Err::<
                (u8, Seq<char>),
                _,
            >(e@),
        },
{
    let n = body.len();
    if n == 0 {
        return Err(SqlError::new("08P01", malformed));
    }
    match read_only_text(vstd::slice::slice_subrange(body, 1, n), text, message) {
        Ok(name) => Ok((body[0], name)),
        Err(e) => Err(e),
    }
}

/// What a Close message does. Closing what is not there is no error.
pub open spec fn closed(c: ConnectionView, body: Seq<u8>) -> (ConnectionView, MessageView) {
    match target_fields(body, "malformed Close"@, "Close name"@, "Close message"@) {
        Err(e) => c.fails(e),
        Ok((kind, name)) => if kind == TARGET_PORTAL {
            match c.portal_entry(name) {
                Err(e) => c.fails(e),
                Ok(removed) => match projected(c.retained, removed as int, 0, c.limit) {
                    Err(e) => c.fails(e),
                    Ok(retained) => (
                        ConnectionView { portals: c.portals.remove(name), retained, ..c },
                        bare(KIND_CLOSED),
                    ),
                },
            }
        } else if kind == TARGET_STATEMENT {
            match c.prepared_entry(name) {
                Err(e) => c.fails(e),
                Ok(removed) => match projected(c.retained, removed as int, 0, c.limit) {
                    Err(e) => c.fails(e),
                    Ok(retained) => (
                        ConnectionView { prepared: c.prepared.remove(name), retained, ..c },
                        bare(KIND_CLOSED),
                    ),
                },
            }
        } else {
            c.fails(sql_error("08P01"@, "invalid Close target"@))
        },
    }
}

impl Connection {
    pub(crate) fn drop_portal(&mut self, name: &str, retained: usize)
        ensures
            final(self)@ == (ConnectionView {
                portals: old(self)@.portals.remove(name@),
                retained: retained as int,
                ..old(self)@
            }),
    {
        let ghost before = self@;
        let _dropped = self.portals.remove(name);
        self.retained_extended_query_bytes = retained;
        assert(self@.portals =~= before.portals.remove(name@));
        assert(self@.prepared =~= before.prepared);
        assert(self@ =~= (ConnectionView {
            portals: before.portals.remove(name@),
            retained: retained as int,
            ..before
        }));
    }

    fn drop_prepared(&mut self, name: &str, retained: usize)
        ensures
            final(self)@ == (ConnectionView {
                prepared: old(self)@.prepared.remove(name@),
                retained: retained as int,
                ..old(self)@
            }),
    {
        let ghost before = self@;
        let _dropped = self.prepared.remove(name);
        self.retained_extended_query_bytes = retained;
        assert(self@.prepared =~= before.prepared.remove(name@));
        assert(self@.portals =~= before.portals);
        assert(self@ =~= (ConnectionView {
            prepared: before.prepared.remove(name@),
            retained: retained as int,
            ..before
        }));
    }

    /// Answers a Close message.
    pub fn close(&mut self, body: &[u8]) -> (message: Message)
        ensures
            (final(self)@, message@) == closed(old(self)@, body@),
    {
        let (kind, name) = match read_target(
            body,
            "malformed Close",
            "Close name",
            "Close message",
        ) {
            Ok(found) => found,
            Err(e) => {
                return self.extended_failure(&e);
            },
        };
        if kind == TARGET_PORTAL {
            let removed = match self.portal_entry_bytes(name.as_str()) {
                Ok(bytes) => bytes,
                Err(e) => {
                    return self.extended_failure(&e);
                },
            };
            match self.projected_extended_query_bytes(removed, 0) {
                Ok(retained) => {
                    self.drop_portal(name.as_str(), retained);
                    bare_message(KIND_CLOSED)
                },
                Err(e) => self.extended_failure(&e),
            }
        } else if kind == TARGET_STATEMENT {
            let removed = match self.prepared_entry_bytes(name.as_str()) {
                Ok(bytes) => bytes,
                Err(e) => {
                    return self.extended_failure(&e);
                },
            };
            match self.projected_extended_query_bytes(removed, 0) {
                Ok(retained) => {
                    self.drop_prepared(name.as_str(), retained);
                    bare_message(KIND_CLOSED)
                },
                Err(e) => self.extended_failure(&e),
            }
        } else {
            self.extended_failure(&SqlError::new("08P01", "invalid Close target"))
        }
    }
}

} // verus!
