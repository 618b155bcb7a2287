//! Error texts: classifying what went wrong from the words of a message.
use vstd::prelude::*;

use crate::text::{joined, seq_contains, text_contains};

verus! {

/// Position `i` holds the first marker of `markers` that occurs in `text`.
pub open spec fn first_hit(text: Seq<char>, markers: Seq<Seq<char>>, i: int) -> bool {
    &&& 0 <= i < markers.len()
    &&& seq_contains(text, markers[i])
    &&& forall|k: int| 0 <= k < i ==> !seq_contains(text, #[trigger] markers[k])
}

/// No marker of `markers` occurs in `text`.
pub open spec fn no_hit(text: Seq<char>, markers: Seq<Seq<char>>) -> bool {
    forall|k: int| 0 <= k < markers.len() ==> !seq_contains(text, #[trigger] markers[k])
}

/// A marker table: markers to look for, in order, each with the message it
/// stands for.
pub struct MarkerTable {
    pub markers: Vec<&'static str>,
    pub messages: Vec<&'static str>,
}

/// The marker views of a table.
pub open spec fn marker_views(t: MarkerTable) -> Seq<Seq<char>> {
    t.markers@.map_values(|m: &'static str| m@)
}

/// The message views of a table.
pub open spec fn message_views(t: MarkerTable) -> Seq<Seq<char>> {
    t.messages@.map_values(|m: &'static str| m@)
}

/// The position of the first marker of `table` that occurs in `text`.
pub fn first_marker(text: &str, table: &MarkerTable) -> (r: Option<usize>)
    ensures
        match r {
            Some(i) => first_hit(text@, marker_views(*table), i as int),
            None => no_hit(text@, marker_views(*table)),
        },
{
    let ghost m = marker_views(*table);
    let mut i: usize = 0;
    while i < table.markers.len()
        invariant
            i <= table.markers@.len(),
            m == marker_views(*table),
            forall|k: int| 0 <= k < i ==> !seq_contains(text@, #[trigger] m[k]),
        decreases table.markers@.len() - i,
    {
        if text_contains(text, table.markers[i]) {
            return Some(i);
        }
        i = i + 1;
    }
    None
}

/// The message that the first of `markers` found in `text` stands for, if
/// any: `messages[i]` stands for `markers[i]`.
pub open spec fn table_message(
    text: Seq<char>,
    markers: Seq<Seq<char>>,
    messages: Seq<Seq<char>>,
) -> Option<Seq<char>> {
    if exists|i: int| first_hit(text, markers, i) {
        let i = choose|i: int| first_hit(text, markers, i);
        Some(messages[i])
    } else {
        None
    }
}

proof fn lemma_first_hit_unique(text: Seq<char>, m: Seq<Seq<char>>, i: int, j: int)
    requires
        first_hit(text, m, i),
        first_hit(text, m, j),
    ensures
        i == j,
{
}

/// The message for `text` under `table`: the message of its first marker.
pub fn table_lookup(text: &str, table: &MarkerTable) -> (r: Option<&'static str>)
    requires
        table.messages@.len() == table.markers@.len(),
    ensures
        match r {
            Some(m) => table_message(text@, marker_views(*table), message_views(*table)) == Some(
                m@,
            ),
            None => table_message(text@, marker_views(*table), message_views(*table)) is None,
        },
{
    match first_marker(text, table) {
        Some(i) => {
            proof {
                let j = choose|j: int| first_hit(text@, marker_views(*table), j);
                lemma_first_hit_unique(text@, marker_views(*table), i as int, j);
            }
            Some(table.messages[i])
        },
        None => {
            assert(!exists|i: int| first_hit(text@, marker_views(*table), i));
            None
        },
    }
}

/// The friendlier wording of common launch failures, looked for in order.
pub fn friendly_table() -> (r: MarkerTable)
    ensures
        r.markers@.len() == r.messages@.len(),
        marker_views(r) == friendly_markers(),
        message_views(r) == friendly_messages(),
{
    let memory: &'static str = "Not enough memory to start Minecraft. Try closing other programs or increasing the memory allocation in the profile settings.";
    let crash: &'static str = "Minecraft exited with an error when starting. This may be due to Java version incompatibility, insufficient system resources, or game file corruption.";
    let opengl: &'static str = "OpenGL error. Update your video card drivers or make sure your computer supports the required OpenGL version.";
    let r = MarkerTable {
        markers: vec![
            "JVM allocation heap",
            "heap space",
            "java.lang.ClassNotFoundException",
            "java.io.IOException",
            "java.lang.OutOfMemoryError",
            "exited immediately",
            "crashed during startup",
            "no valid OpenGL",
            "OpenGL Error",
        ],
        messages: vec![
            memory,
            memory,
            "Could not find the required Java class. The Java installation may be corrupted or incompatible.",
            "I/O error. Check if you have write permissions to the game directory and if there is enough space on the disk.",
            "Not enough memory to start Minecraft. Try closing other programs or increasing the memory allocation.",
            crash,
            crash,
            opengl,
            opengl,
        ],
    };
    assert(marker_views(r) =~= friendly_markers());
    assert(message_views(r) =~= friendly_messages());
    r
}

/// The markers of the friendly table.
pub open spec fn friendly_markers() -> Seq<Seq<char>> {
    seq![
        "JVM allocation heap"@,
        "heap space"@,
        "java.lang.ClassNotFoundException"@,
        "java.io.IOException"@,
        "java.lang.OutOfMemoryError"@,
        "exited immediately"@,
        "crashed during startup"@,
        "no valid OpenGL"@,
        "OpenGL Error"@,
    ]
}

/// The messages of the friendly table, one per marker.
pub open spec fn friendly_messages() -> Seq<Seq<char>> {
    seq![
        "Not enough memory to start Minecraft. Try closing other programs or increasing the memory allocation in the profile settings."@,
        "Not enough memory to start Minecraft. Try closing other programs or increasing the memory allocation in the profile settings."@,
        "Could not find the required Java class. The Java installation may be corrupted or incompatible."@,
        "I/O error. Check if you have write permissions to the game directory and if there is enough space on the disk."@,
        "Not enough memory to start Minecraft. Try closing other programs or increasing the memory allocation."@,
        "Minecraft exited with an error when starting. This may be due to Java version incompatibility, insufficient system resources, or game file corruption."@,
        "Minecraft exited with an error when starting. This may be due to Java version incompatibility, insufficient system resources, or game file corruption."@,
        "OpenGL error. Update your video card drivers or make sure your computer supports the required OpenGL version."@,
        "OpenGL error. Update your video card drivers or make sure your computer supports the required OpenGL version."@,
    ]
}

/// The text shown to the user for an error `message`: the friendlier
/// explanation of the first known marker it holds, or the message itself.
pub fn friendly_error_message(message: &str) -> (r: String)
    ensures
        (exists|i: int| first_hit(message@, friendly_markers(), i) && r@ == friendly_messages()[i])
            || (no_hit(message@, friendly_markers()) && r@ == message@),
{
    let table = friendly_table();
    match first_marker(message, &table) {
        Some(i) => String::from_str(table.messages[i]),
        None => String::from_str(message),
    }
}

/// The markers of process-start failures, looked for in order.
pub open spec fn spawn_markers() -> Seq<Seq<char>> {
    seq![
        "No such file or directory"@,
        "permission denied"@,
        "Too many open files"@,
        "Cannot allocate memory"@,
    ]
}

/// The messages of process-start failures, one per marker.
pub open spec fn spawn_messages() -> Seq<Seq<char>> {
    seq![
        "Error: Java not found. Please install Java and try again."@,
        "Error: Permission denied. Try running as administrator."@,
        "Error: System resource limit reached. Try closing other applications."@,
        "Error: Not enough memory. Try closing other applications or allocate more memory."@,
    ]
}

/// The message for a runtime that could not be started, from the text of
/// the error: a known category, or `Failed to start game: <error>`.
pub fn classify_spawn_error(error: &str) -> (r: String)
    ensures
        (exists|i: int| first_hit(error@, spawn_markers(), i) && r@ == spawn_messages()[i]) || (
        no_hit(error@, spawn_markers()) && r@ == "Failed to start game: "@ + error@),
{
    let table = MarkerTable {
        markers: vec![
            "No such file or directory",
            "permission denied",
            "Too many open files",
            "Cannot allocate memory",
        ],
        messages: vec![
            "Error: Java not found. Please install Java and try again.",
            "Error: Permission denied. Try running as administrator.",
            "Error: System resource limit reached. Try closing other applications.",
            "Error: Not enough memory. Try closing other applications or allocate more memory.",
        ],
    };
    assert(marker_views(table) =~= spawn_markers());
    assert(message_views(table) =~= spawn_messages());
    match first_marker(error, &table) {
        Some(i) => String::from_str(table.messages[i]),
        None => joined("Failed to start game: ", error),
    }
}

/// The markers of fatal runtime errors printed at startup, looked for in
/// order: an unsupported class version, a runtime that cannot be created,
/// memory exhaustion, and native libraries that fail to load.
pub open spec fn fatal_markers() -> Seq<Seq<char>> {
    seq![
        "UnsupportedClassVersionError"@,
        "Could not create the Java Virtual Machine"@,
        "OutOfMemoryError"@,
        "UnsatisfiedLinkError"@,
    ]
}

/// The messages of fatal runtime errors, one per marker.
pub open spec fn fatal_messages() -> Seq<Seq<char>> {
    seq![
        "Error: The game needs a newer Java version than the selected one."@,
        "Error: Java could not start. Check the extra Java arguments of the profile."@,
        "Error: Java ran out of memory. Allocate more memory in the profile settings."@,
        "Error: Native libraries could not be loaded. Try launching the game again."@,
    ]
}

/// The table of fatal runtime errors.
pub fn fatal_table() -> (r: MarkerTable)
    ensures
        r.markers@.len() == r.messages@.len(),
        marker_views(r) == fatal_markers(),
        message_views(r) == fatal_messages(),
{
    let r = MarkerTable {
        markers: vec![
            "UnsupportedClassVersionError",
            "Could not create the Java Virtual Machine",
            "OutOfMemoryError",
            "UnsatisfiedLinkError",
        ],
        messages: vec![
            "Error: The game needs a newer Java version than the selected one.",
            "Error: Java could not start. Check the extra Java arguments of the profile.",
            "Error: Java ran out of memory. Allocate more memory in the profile settings.",
            "Error: Native libraries could not be loaded. Try launching the game again.",
        ],
    };
    assert(marker_views(r) =~= fatal_markers());
    assert(message_views(r) =~= fatal_messages());
    r
}

} // verus!
