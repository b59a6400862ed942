use crate::bytes::str_eq;
use crate::layout::{
    has_dynamic, has_name, lemma_lookup_at, lookup, total_length, DataStructure, DataStructuresFactory,
    DataType, Fields, Layout, ProtocolError,
};
use vstd::prelude::*;

verus! {

/// Field `e` is called `name`, has kind `kind`, and spans `length` bytes from `start`.
pub open spec fn field_is(e: (String, DataStructure), name: Seq<char>, kind: DataType, start: nat, length: nat) -> bool {
    &&& e.0@ == name
    &&& e.1.data_type == kind
    &&& e.1.start_byte == start
    &&& e.1.length == length
}

/// A player record: number, name in 15 bytes, IPv4 address, port.
pub open spec fn player_record_fields(fields: Fields) -> bool {
    &&& fields.len() == 4
    &&& field_is(fields[0], "PlayerNumber"@, DataType::Number, 0, 1)
    &&& field_is(fields[1], "PlayerName"@, DataType::FixedString, 1, 15)
    &&& field_is(fields[2], "PlayerIP"@, DataType::Number, 16, 4)
    &&& field_is(fields[3], "PlayerPort"@, DataType::Number, 20, 2)
}

/// The body of a PlayerEnterRequest: the name, to the end of the data.
pub open spec fn player_enter_request_fields(fields: Fields) -> bool {
    &&& fields.len() == 1
    &&& field_is(fields[0], "PlayerName"@, DataType::DynamicString, 0, 0)
}

/// The body of a PlayerCreatedResponse: status, number, name, then the other
/// players as an array of player records.
pub open spec fn player_created_response_fields(fields: Fields) -> bool {
    &&& fields.len() == 4
    &&& field_is(fields[0], "Status"@, DataType::Number, 0, 1)
    &&& field_is(fields[1], "PlayerNumber"@, DataType::Number, 1, 1)
    &&& field_is(fields[2], "PlayerName"@, DataType::FixedString, 2, 15)
    &&& field_is(fields[3], "OtherPlayers"@, DataType::Array, 17, 22)
    &&& fields[3].1.array_structure matches Some(inner) && player_record_fields(inner.fields@)
}

pub open spec fn protocol_names_unique(p: Seq<(String, Layout)>) -> bool {
    forall|i: int, j: int| 0 <= i < j < p.len() ==> p[i].0@ != p[j].0@
}

/// The layout registered under a name.
pub open spec fn find_protocol(p: Seq<(String, Layout)>, name: Seq<char>) -> Option<Layout> {
    if exists|i: int| 0 <= i < p.len() && p[i].0@ == name {
        Some(p[choose|i: int| 0 <= i < p.len() && p[i].0@ == name].1)
    } else {
        None
    }
}

pub open spec fn has_layout(p: Seq<(String, Layout)>, name: Seq<char>, shape: spec_fn(Fields) -> bool) -> bool {
    match find_protocol(p, name) {
        Some(l) => shape(l.fields@),
        None => false,
    }
}

/// The catalogue holds the layouts of PlayerEnterRequest, PlayerEnterPush and
/// PlayerCreatedResponse.
pub open spec fn default_catalogue(p: Seq<(String, Layout)>) -> bool {
    &&& has_layout(p, "PlayerEnterRequest"@, |f: Fields| player_enter_request_fields(f))
    &&& has_layout(p, "PlayerEnterPush"@, |f: Fields| player_record_fields(f))
    &&& has_layout(p, "PlayerCreatedResponse"@, |f: Fields| player_created_response_fields(f))
}

/// The message catalogue: the layout of each message body, by message name.
pub struct Protocol {
    protocols: Vec<(String, Layout)>,
}

impl Protocol {
    pub closed spec fn spec_protocols(&self) -> Seq<(String, Layout)> {
        self.protocols@
    }

    /// Every layout valid, names unique.
    pub closed spec fn wf(&self) -> bool {
        &&& protocol_names_unique(self.protocols@)
        &&& forall|i: int| 0 <= i < self.protocols@.len() ==> (#[trigger] self.protocols@[i]).1.wf()
    }

    /// The layout registered under a name.
    pub open spec fn layout_of(&self, name: Seq<char>) -> Option<Layout> {
        find_protocol(self.spec_protocols(), name)
    }

    /// Holds the layouts of PlayerEnterRequest, PlayerEnterPush and PlayerCreatedResponse.
    pub open spec fn is_default(&self) -> bool {
        default_catalogue(self.spec_protocols())
    }

    /// The catalogue of this protocol's messages.
    pub fn new() -> (r: Protocol)
        ensures
            r.wf(),
            r.is_default(),
    {
        match get_default_data_protocols() {
            Ok(protocols) => Protocol { protocols },
            Err(_) => {
                proof {
                    assert(false);
                }
                Protocol { protocols: Vec::new() }
            },
        }
    }

    /// The layout of a message body.
    pub fn get_protocol(&self, protocol_name: &str) -> (r: Result<&Layout, ProtocolError>)
        requires
            self.wf(),
        ensures
            match r {
                Ok(l) => self.layout_of(protocol_name@) == Some(*l) && l.wf(),
                Err(e) => e == ProtocolError::ProtocolNotFound && self.layout_of(protocol_name@) is None,
            },
    {
        let mut i: usize = 0;
        while i < self.protocols.len()
            invariant
                self.wf(),
                i <= self.protocols@.len(),
                forall|j: int| 0 <= j < i ==> self.protocols@[j].0@ != protocol_name@,
            decreases self.protocols@.len() - i,
        {
            if str_eq(self.protocols[i].0.as_str(), protocol_name) {
                proof {
                    lemma_find_protocol_at(self.protocols@, protocol_name@, i as int);
                }
                return Ok(&self.protocols[i].1);
            }
            i = i + 1;
        }
        Err(ProtocolError::ProtocolNotFound)
    }

    /// The layout of a message body (same as `get_protocol`).
    pub fn get_structures_ref(&self, protocol_name: &str) -> (r: Result<&Layout, ProtocolError>)
        requires
            self.wf(),
        ensures
            match r {
                Ok(l) => self.layout_of(protocol_name@) == Some(*l) && l.wf(),
                Err(e) => e == ProtocolError::ProtocolNotFound && self.layout_of(protocol_name@) is None,
            },
    {
        self.get_protocol(protocol_name)
    }

    /// The element layout of array field `name` of a message body.
    pub fn get_array_structure_as_ref(&self, protocol_name: &str, name: &str) -> (r: Result<&Layout, ProtocolError>)
        requires
            self.wf(),
        ensures
            match self.layout_of(protocol_name@) {
                None => r == Err::<&Layout, ProtocolError>(ProtocolError::ProtocolNotFound),
                Some(l) => match lookup(l.fields@, name@) {
                    None => r == Err::<&Layout, ProtocolError>(ProtocolError::StructureNotFound),
                    Some(f) => match f.array_structure {
                        None => r == Err::<&Layout, ProtocolError>(ProtocolError::WrongFieldKind),
                        Some(inner) => r matches Ok(x) && *x == inner && x.wf(),
                    },
                },
            },
    {
        let protocol = self.get_protocol(protocol_name)?;
        let structure = crate::layout::get_field(protocol, name)?;
        match &structure.array_structure {
            None => Err(ProtocolError::WrongFieldKind),
            Some(inner) => {
                proof {
                    crate::datastructure::lemma_element_layout_wf(protocol, name@);
                }
                Ok(inner)
            },
        }
    }
}

pub proof fn lemma_find_protocol_at(p: Seq<(String, Layout)>, name: Seq<char>, i: int)
    requires
        protocol_names_unique(p),
        0 <= i < p.len(),
        p[i].0@ == name,
    ensures
        find_protocol(p, name) == Some(p[i].1),
{
    let c = choose|c: int| 0 <= c < p.len() && p[c].0@ == name;
    if c < i {
        assert(p[c].0@ != p[i].0@);
    } else if c > i {
        assert(p[i].0@ != p[c].0@);
    }
}

/// The player record layout: number, name, IPv4 address, port.
fn player_record_layout() -> (r: Result<Layout, ProtocolError>)
    ensures
        r matches Ok(l) && l.wf() && player_record_fields(l.fields@),
{
    proof {
        reveal_strlit("PlayerNumber");
        reveal_strlit("PlayerName");
        reveal_strlit("PlayerIP");
        reveal_strlit("PlayerPort");
        assert("PlayerNumber"@.len() == 12);
        assert("PlayerName"@.len() == 10);
        assert("PlayerIP"@.len() == 8);
        assert("PlayerPort"@.len() == 10);
        assert("PlayerName"@[6] != "PlayerPort"@[6]);
    }
    let mut f = DataStructuresFactory::new();
    f.structure("PlayerNumber", 1, DataType::Number, None)?;
    let ghost f1 = f.spec_fields();
    assert(!has_dynamic(f1)) by {
        assert(f1[0].1.data_type == DataType::Number);
    }
    assert(!has_name(f1, "PlayerName"@)) by {
        assert(f1[0].0@ != "PlayerName"@);
    }
    assert(total_length(f1) == 1) by {
        reveal_with_fuel(crate::layout::prefix_length, 2);
    }
    f.structure("PlayerName", 15, DataType::FixedString, None)?;
    let ghost f2 = f.spec_fields();
    assert(f2[0] == f1[0]) by {
        assert(f2.subrange(0, 1)[0] == f2[0]);
    }
    assert(!has_dynamic(f2));
    assert(!has_name(f2, "PlayerIP"@));
    assert(total_length(f2) == 16) by {
        reveal_with_fuel(crate::layout::prefix_length, 3);
    }
    f.structure("PlayerIP", 4, DataType::Number, None)?;
    let ghost f3 = f.spec_fields();
    assert(f3[0] == f2[0] && f3[1] == f2[1]) by {
        assert(f3.subrange(0, 2)[0] == f3[0]);
        assert(f3.subrange(0, 2)[1] == f3[1]);
    }
    assert(!has_dynamic(f3));
    assert(!has_name(f3, "PlayerPort"@));
    assert(total_length(f3) == 20) by {
        reveal_with_fuel(crate::layout::prefix_length, 4);
    }
    f.structure("PlayerPort", 2, DataType::Number, None)?;
    let ghost f4 = f.spec_fields();
    assert(f4[0] == f3[0] && f4[1] == f3[1] && f4[2] == f3[2]) by {
        assert(f4.subrange(0, 3)[0] == f4[0]);
        assert(f4.subrange(0, 3)[1] == f4[1]);
        assert(f4.subrange(0, 3)[2] == f4[2]);
    }
    Ok(f.get_structures())
}

/// The layouts of the message bodies, by message name.
pub fn get_default_data_protocols() -> (r: Result<Vec<(String, Layout)>, ProtocolError>)
    ensures
        r is Ok,
        r matches Ok(v) ==> protocol_names_unique(v@) && default_catalogue(v@) && (forall|i: int|
            0 <= i < v@.len() ==> (#[trigger] v@[i]).1.wf()),
{
    proof {
        reveal_strlit("PlayerEnterRequest");
        reveal_strlit("PlayerEnterPush");
        reveal_strlit("PlayerCreatedResponse");
        reveal_strlit("Status");
        reveal_strlit("PlayerNumber");
        reveal_strlit("PlayerName");
        reveal_strlit("OtherPlayers");
        assert("PlayerEnterRequest"@.len() == 18);
        assert("PlayerEnterPush"@.len() == 15);
        assert("PlayerCreatedResponse"@.len() == 21);
        assert("Status"@.len() == 6);
        assert("PlayerNumber"@.len() == 12);
        assert("PlayerName"@.len() == 10);
        assert("OtherPlayers"@.len() == 12);
        assert("PlayerNumber"@[0] != "OtherPlayers"@[0]);
    }
    let mut protocols: Vec<(String, Layout)> = Vec::new();

    let mut request = DataStructuresFactory::new();
    request.structure("PlayerName", 0, DataType::DynamicString, None)?;
    protocols.push(("PlayerEnterRequest".to_owned(), request.get_structures()));

    let push = player_record_layout()?;
    protocols.push(("PlayerEnterPush".to_owned(), push));

    let element = player_record_layout()?;
    let ghost element_fields = element.fields@;
    let mut response = DataStructuresFactory::new();
    response.structure("Status", 1, DataType::Number, None)?;
    let ghost g1 = response.spec_fields();
    assert(!has_dynamic(g1)) by {
        assert(g1[0].1.data_type == DataType::Number);
    }
    assert(!has_name(g1, "PlayerNumber"@)) by {
        assert(g1[0].0@ != "PlayerNumber"@);
    }
    assert(total_length(g1) == 1) by {
        reveal_with_fuel(crate::layout::prefix_length, 2);
    }
    response.structure("PlayerNumber", 1, DataType::Number, None)?;
    let ghost g2 = response.spec_fields();
    assert(g2[0] == g1[0]) by {
        assert(g2.subrange(0, 1)[0] == g2[0]);
    }
    assert(!has_dynamic(g2));
    assert(!has_name(g2, "PlayerName"@));
    assert(total_length(g2) == 2) by {
        reveal_with_fuel(crate::layout::prefix_length, 3);
    }
    response.structure("PlayerName", 15, DataType::FixedString, None)?;
    let ghost g3 = response.spec_fields();
    assert(g3[0] == g2[0] && g3[1] == g2[1]) by {
        assert(g3.subrange(0, 2)[0] == g3[0]);
        assert(g3.subrange(0, 2)[1] == g3[1]);
    }
    assert(!has_dynamic(g3));
    assert(!has_name(g3, "OtherPlayers"@));
    assert(crate::layout::fixed_only(element_fields)) by {
        assert forall|i: int| 0 <= i < element_fields.len() implies crate::layout::is_fixed(
            #[trigger] element_fields[i].1.data_type,
        ) by {
            assert(i == 0 || i == 1 || i == 2 || i == 3);
        }
    }
    assert(total_length(element_fields) == 22) by {
        reveal_with_fuel(crate::layout::prefix_length, 5);
    }
    assert(total_length(g3) == 17) by {
        reveal_with_fuel(crate::layout::prefix_length, 4);
    }
    response.structure("OtherPlayers", 0, DataType::Array, Some(element))?;
    let ghost g4 = response.spec_fields();
    assert(g4[0] == g3[0] && g4[1] == g3[1] && g4[2] == g3[2]) by {
        assert(g4.subrange(0, 3)[0] == g4[0]);
        assert(g4.subrange(0, 3)[1] == g4[1]);
        assert(g4.subrange(0, 3)[2] == g4[2]);
    }
    protocols.push(("PlayerCreatedResponse".to_owned(), response.get_structures()));
    let ghost p = protocols@;
    proof {
        assert(p[0].0@ == "PlayerEnterRequest"@);
        assert(p[1].0@ == "PlayerEnterPush"@);
        assert(p[2].0@ == "PlayerCreatedResponse"@);
        assert(protocol_names_unique(p));
        lemma_find_protocol_at(p, "PlayerEnterRequest"@, 0);
        lemma_find_protocol_at(p, "PlayerEnterPush"@, 1);
        lemma_find_protocol_at(p, "PlayerCreatedResponse"@, 2);
    }
    Ok(protocols)
}

} // verus!

verus! {

/// Where each field of a player record layout is found by name.
pub proof fn lemma_record_lookups(l: Layout)
    requires
        l.wf(),
        player_record_fields(l.fields@),
    ensures
        lookup(l.fields@, "PlayerNumber"@) == Some(l.fields@[0].1),
        lookup(l.fields@, "PlayerName"@) == Some(l.fields@[1].1),
        lookup(l.fields@, "PlayerIP"@) == Some(l.fields@[2].1),
        lookup(l.fields@, "PlayerPort"@) == Some(l.fields@[3].1),
{
    lemma_lookup_at(l.fields@, "PlayerNumber"@, 0);
    lemma_lookup_at(l.fields@, "PlayerName"@, 1);
    lemma_lookup_at(l.fields@, "PlayerIP"@, 2);
    lemma_lookup_at(l.fields@, "PlayerPort"@, 3);
}

/// Where each field of the PlayerCreatedResponse layout is found by name.
pub proof fn lemma_response_lookups(l: Layout)
    requires
        l.wf(),
        player_created_response_fields(l.fields@),
    ensures
        lookup(l.fields@, "Status"@) == Some(l.fields@[0].1),
        lookup(l.fields@, "PlayerNumber"@) == Some(l.fields@[1].1),
        lookup(l.fields@, "PlayerName"@) == Some(l.fields@[2].1),
        lookup(l.fields@, "OtherPlayers"@) == Some(l.fields@[3].1),
{
    lemma_lookup_at(l.fields@, "Status"@, 0);
    lemma_lookup_at(l.fields@, "PlayerNumber"@, 1);
    lemma_lookup_at(l.fields@, "PlayerName"@, 2);
    lemma_lookup_at(l.fields@, "OtherPlayers"@, 3);
}

impl Protocol {
    /// The layout found under a name of the default catalogue has the shape
    /// that the catalogue gives it.
    pub proof fn lemma_default_layout(&self, name: Seq<char>, l: Layout, shape: spec_fn(Fields) -> bool)
        requires
            self.layout_of(name) == Some(l),
            has_layout(self.spec_protocols(), name, shape),
        ensures
            shape(l.fields@),
    {
    }
}

} // verus!
