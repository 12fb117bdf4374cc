//! String helpers shared by the platform backends: wide-string
//! encoding for the Win32 APIs, command-line quoting for desktop-entry
//! files and process arguments, and plain text comparison.

use vstd::prelude::*;
use vstd::string::StrSliceExecFns;

verus! {

/// Character-wise text equality.
pub fn str_eq(a: &str, b: &str) -> (r: bool)
    ensures
        r == (a@ == b@),
{
    let alen = a.unicode_len();
    let blen = b.unicode_len();
    if alen != blen {
        proof {
            assert(a@.len() != b@.len());
        }
        return false;
    }
    let mut i: usize = 0;
    while i < alen
        invariant
            alen == a@.len(),
            alen == b@.len(),
            i <= alen,
            forall|j: int| 0 <= j < i ==> a@[j] == b@[j],
        decreases alen - i,
    {
        if a.get_char(i) != b.get_char(i) {
            return false;
        }
        i = i + 1;
    }
    proof {
        assert(a@ =~= b@);
    }
    true
}

/// The UTF-16 code units of one character: itself for the basic plane,
/// a surrogate pair above it.
pub open spec fn utf16_char(c: char) -> Seq<u16> {
    let v = c as u32;
    if v < 0x10000 {
        seq![v as u16]
    } else {
        seq![
            ((v - 0x10000) / 0x400 + 0xD800) as u16,
            ((v - 0x10000) % 0x400 + 0xDC00) as u16,
        ]
    }
}

/// The UTF-16 encoding of a character sequence.
pub open spec fn utf16_encode(s: Seq<char>) -> Seq<u16>
    decreases s.len(),
{
    if s.len() == 0 {
        Seq::empty()
    } else {
        utf16_char(s[0]) + utf16_encode(s.drop_first())
    }
}

proof fn lemma_utf16_snoc(s: Seq<char>, c: char)
    ensures
        utf16_encode(s.push(c)) == utf16_encode(s) + utf16_char(c),
    decreases s.len(),
{
    assert(s.push(c).len() > 0);
    assert(utf16_encode(s.push(c)) == utf16_char(s.push(c)[0]) + utf16_encode(
        s.push(c).drop_first(),
    ));
    if s.len() == 0 {
        assert(s.push(c)[0] == c);
        assert(s.push(c).drop_first() =~= Seq::<char>::empty());
        assert(utf16_encode(Seq::<char>::empty()) == Seq::<u16>::empty());
        assert(utf16_encode(s.push(c)) =~= utf16_encode(s) + utf16_char(c));
    } else {
        assert(s.push(c)[0] == s[0]);
        assert(s.push(c).drop_first() =~= s.drop_first().push(c));
        lemma_utf16_snoc(s.drop_first(), c);
        assert(utf16_encode(s.push(c)) =~= utf16_encode(s) + utf16_char(c));
    }
}

/// Conversion to the Win32 wide-string form: UTF-16 code units with a
/// terminating NUL.
pub trait Win32StringIntoExt {
    /// The characters being encoded.
    spec fn text(&self) -> Seq<char>;

    /// The UTF-16 encoding of the text, NUL-terminated.
    fn to_win32_utf16(&self) -> (r: Vec<u16>)
        ensures
            r@ == utf16_encode(self.text()).push(0u16),
    ;
}

impl Win32StringIntoExt for String {
    open spec fn text(&self) -> Seq<char> {
        self@
    }

    fn to_win32_utf16(&self) -> (r: Vec<u16>) {
        let s = self.as_str();
        let n = s.unicode_len();
        let mut out: Vec<u16> = Vec::new();
        let mut i: usize = 0;
        proof {
            assert(self@.take(0) =~= Seq::<char>::empty());
        }
        while i < n
            invariant
                n == s@.len(),
                s@ == self@,
                i <= n,
                out@ == utf16_encode(self@.take(i as int)),
            decreases n - i,
        {
            let c = s.get_char(i);
            let v = c as u32;
            if v < 0x10000 {
                out.push(v as u16);
            } else {
                out.push(((v - 0x10000) / 0x400 + 0xD800) as u16);
                out.push(((v - 0x10000) % 0x400 + 0xDC00) as u16);
            }
            proof {
                assert(self@.take(i as int + 1) =~= self@.take(i as int).push(self@[i as int]));
                lemma_utf16_snoc(self@.take(i as int), self@[i as int]);
                assert(out@ =~= utf16_encode(self@.take(i as int + 1)));
            }
            i = i + 1;
        }
        proof {
            assert(self@.take(n as int) =~= self@);
        }
        out.push(0);
        out
    }
}

/// The quoting of one character inside a quoted argument: a double
/// quote gains a backslash, everything else stands as it is.
pub open spec fn escaped_char(c: char) -> Seq<char> {
    if c == '"' {
        seq!['\\', '"']
    } else {
        seq![c]
    }
}

/// The quoting of a whole text.
pub open spec fn escaped(s: Seq<char>) -> Seq<char>
    decreases s.len(),
{
    if s.len() == 0 {
        Seq::empty()
    } else {
        escaped_char(s[0]) + escaped(s.drop_first())
    }
}

/// A text wrapped in double quotes, inner quotes escaped.
pub open spec fn quoted(s: Seq<char>) -> Seq<char> {
    seq!['"'] + escaped(s) + seq!['"']
}

/// The Win32 argument join: each argument quoted and followed by one
/// space; no arguments give the empty string.
pub open spec fn spec_join_arguments(args: Seq<Seq<char>>) -> Seq<char>
    decreases args.len(),
{
    if args.len() == 0 {
        Seq::empty()
    } else {
        quoted(args[0]) + seq![' '] + spec_join_arguments(args.drop_first())
    }
}

/// The desktop-entry command line: the quoted executable, then each
/// argument preceded by one space, quoted.
pub open spec fn spec_join_command_line(executable: Seq<char>, args: Seq<Seq<char>>) -> Seq<char> {
    quoted(executable) + spec_command_tail(args)
}

/// The argument part of a command line.
pub open spec fn spec_command_tail(args: Seq<Seq<char>>) -> Seq<char>
    decreases args.len(),
{
    if args.len() == 0 {
        Seq::empty()
    } else {
        seq![' '] + quoted(args[0]) + spec_command_tail(args.drop_first())
    }
}

proof fn lemma_escaped_snoc(s: Seq<char>, c: char)
    ensures
        escaped(s.push(c)) == escaped(s) + escaped_char(c),
    decreases s.len(),
{
    assert(s.push(c).len() > 0);
    if s.len() == 0 {
        assert(s.push(c)[0] == c);
        assert(s.push(c).drop_first() =~= Seq::<char>::empty());
        assert(escaped(Seq::<char>::empty()) == Seq::<char>::empty());
        assert(escaped(s.push(c)) =~= escaped(s) + escaped_char(c));
    } else {
        assert(s.push(c)[0] == s[0]);
        assert(s.push(c).drop_first() =~= s.drop_first().push(c));
        lemma_escaped_snoc(s.drop_first(), c);
        assert(escaped(s.push(c)) =~= escaped(s) + escaped_char(c));
    }
}

proof fn lemma_join_arguments_snoc(args: Seq<Seq<char>>, a: Seq<char>)
    ensures
        spec_join_arguments(args.push(a)) == spec_join_arguments(args) + quoted(a) + seq![' '],
    decreases args.len(),
{
    assert(args.push(a).len() > 0);
    if args.len() == 0 {
        assert(args.push(a)[0] == a);
        assert(args.push(a).drop_first() =~= Seq::<Seq<char>>::empty());
        assert(spec_join_arguments(Seq::<Seq<char>>::empty()) == Seq::<char>::empty());
        assert(spec_join_arguments(args.push(a)) =~= spec_join_arguments(args) + quoted(a)
            + seq![' ']);
    } else {
        assert(args.push(a)[0] == args[0]);
        assert(args.push(a).drop_first() =~= args.drop_first().push(a));
        lemma_join_arguments_snoc(args.drop_first(), a);
        assert(spec_join_arguments(args.push(a)) =~= spec_join_arguments(args) + quoted(a)
            + seq![' ']);
    }
}

proof fn lemma_command_tail_snoc(args: Seq<Seq<char>>, a: Seq<char>)
    ensures
        spec_command_tail(args.push(a)) == spec_command_tail(args) + seq![' '] + quoted(a),
    decreases args.len(),
{
    assert(args.push(a).len() > 0);
    if args.len() == 0 {
        assert(args.push(a)[0] == a);
        assert(args.push(a).drop_first() =~= Seq::<Seq<char>>::empty());
        assert(spec_command_tail(Seq::<Seq<char>>::empty()) == Seq::<char>::empty());
        assert(spec_command_tail(args.push(a)) =~= spec_command_tail(args) + seq![' ']
            + quoted(a));
    } else {
        assert(args.push(a)[0] == args[0]);
        assert(args.push(a).drop_first() =~= args.drop_first().push(a));
        lemma_command_tail_snoc(args.drop_first(), a);
        assert(spec_command_tail(args.push(a)) =~= spec_command_tail(args) + seq![' ']
            + quoted(a));
    }
}

/// Relies on String's FromIterator over char: collecting characters
/// yields the string holding exactly those characters in order.
#[verifier::external_body]
fn chars_to_string(chars: &Vec<char>) -> (r: String)
    ensures
        r@ == chars@,
{
    chars.iter().collect()
}

/// Appends the quoted form of `s` to `out`.
fn push_quoted(out: &mut Vec<char>, s: &str)
    ensures
        final(out)@ == old(out)@ + quoted(s@),
{
    let n = s.unicode_len();
    out.push('"');
    let mut i: usize = 0;
    proof {
        assert(s@.take(0) =~= Seq::<char>::empty());
        assert(out@ =~= old(out)@ + seq!['"'] + escaped(s@.take(0)));
    }
    while i < n
        invariant
            n == s@.len(),
            i <= n,
            out@ == old(out)@ + seq!['"'] + escaped(s@.take(i as int)),
        decreases n - i,
    {
        let c = s.get_char(i);
        if c == '"' {
            out.push('\\');
        }
        out.push(c);
        proof {
            assert(s@.take(i as int + 1) =~= s@.take(i as int).push(s@[i as int]));
            lemma_escaped_snoc(s@.take(i as int), s@[i as int]);
            assert(out@ =~= old(out)@ + seq!['"'] + escaped(s@.take(i as int + 1)));
        }
        i = i + 1;
    }
    proof {
        assert(s@.take(n as int) =~= s@);
    }
    out.push('"');
    proof {
        assert(out@ =~= old(out)@ + quoted(s@));
    }
}

/// Joins process arguments in the Win32 convention: every argument
/// double-quoted with inner quotes escaped and followed by a space;
/// no arguments give the empty string.
pub fn join_arguments(arguments: &[String]) -> (r: String)
    ensures
        r@ == spec_join_arguments(arguments@.map_values(|s: String| s@)),
{
    let ghost views = arguments@.map_values(|s: String| s@);
    let mut out: Vec<char> = Vec::new();
    let mut i: usize = 0;
    proof {
        assert(views.take(0) =~= Seq::<Seq<char>>::empty());
        assert(out@ =~= spec_join_arguments(views.take(0)));
    }
    while i < arguments.len()
        invariant
            views == arguments@.map_values(|s: String| s@),
            i <= arguments@.len(),
            out@ == spec_join_arguments(views.take(i as int)),
        decreases arguments@.len() - i,
    {
        let s = vstd::slice::slice_index_get(arguments, i);
        push_quoted(&mut out, s.as_str());
        out.push(' ');
        proof {
            assert(views.take(i as int + 1) =~= views.take(i as int).push(views[i as int]));
            lemma_join_arguments_snoc(views.take(i as int), views[i as int]);
            assert(out@ =~= spec_join_arguments(views.take(i as int + 1)));
        }
        i = i + 1;
    }
    proof {
        assert(views.take(arguments@.len() as int) =~= views);
    }
    chars_to_string(&out)
}

/// Builds the `Exec=` command line of a desktop entry: the quoted
/// executable, then each argument quoted and separated by one space.
pub fn join_command_line(executable: &str, arguments: &[String]) -> (r: String)
    ensures
        r@ == spec_join_command_line(executable@, arguments@.map_values(|s: String| s@)),
{
    let ghost views = arguments@.map_values(|s: String| s@);
    let mut out: Vec<char> = Vec::new();
    push_quoted(&mut out, executable);
    let mut i: usize = 0;
    proof {
        assert(views.take(0) =~= Seq::<Seq<char>>::empty());
        assert(out@ =~= quoted(executable@) + spec_command_tail(views.take(0)));
    }
    while i < arguments.len()
        invariant
            views == arguments@.map_values(|s: String| s@),
            i <= arguments@.len(),
            out@ == quoted(executable@) + spec_command_tail(views.take(i as int)),
        decreases arguments@.len() - i,
    {
        let s = vstd::slice::slice_index_get(arguments, i);
        out.push(' ');
        push_quoted(&mut out, s.as_str());
        proof {
            assert(views.take(i as int + 1) =~= views.take(i as int).push(views[i as int]));
            lemma_command_tail_snoc(views.take(i as int), views[i as int]);
            assert(out@ =~= quoted(executable@) + spec_command_tail(views.take(i as int + 1)));
        }
        i = i + 1;
    }
    proof {
        assert(views.take(arguments@.len() as int) =~= views);
    }
    chars_to_string(&out)
}


/// Why a wide string could not be decoded.
#[derive(Clone, Copy, Debug, PartialEq, Eq, Structural)]
pub enum StringError {
    /// The code units are not well-formed UTF-16.
    InvalidUtf16,
}

/// Relies on String::from_utf16: a successful decode yields the string
/// whose UTF-16 encoding is exactly the input, and the decode fails
/// only on ill-formed UTF-16 — code units that are the encoding of
/// some character sequence are well-formed, so they always decode.
#[verifier::external_body]
fn decode_utf16(units: &[u16]) -> (r: Option<String>)
    ensures
        r matches Some(s) ==> utf16_encode(s@) == units@,
        r is None ==> !(exists|s: Seq<char>| utf16_encode(s) == units@),
{
    String::from_utf16(units).ok()
}

/// Conversion from the Win32 wide-string form: the code units up to the
/// first NUL (or none, when no NUL terminates the buffer) are decoded
/// back into text.
pub trait Win32StringFromExt: Sized {
    /// Decodes a NUL-terminated UTF-16 buffer.  A successful decode is
    /// faithful: encoding the result gives back the code units before
    /// the first NUL.
    fn from_win32_utf16(chars: &[u16]) -> (r: Result<Self, StringError>);
}

impl Win32StringFromExt for String {
    fn from_win32_utf16(chars: &[u16]) -> (r: Result<Self, StringError>)
        ensures
            r matches Ok(s) ==> utf16_encode(s@) == nul_cut(chars@),
            r is Err <==> !(exists|s: Seq<char>| utf16_encode(s) == nul_cut(chars@)),
    {
        let mut nul_index: usize = 0;
        let mut i: usize = 0;
        let mut found = false;
        while i < chars.len()
            invariant
                i <= chars@.len(),
                !found ==> nul_index == 0 && forall|j: int| 0 <= j < i ==> chars@[j] != 0,
                found ==> nul_index < chars@.len() && chars@[nul_index as int] == 0
                    && forall|j: int| 0 <= j < nul_index ==> chars@[j] != 0,
            decreases chars@.len() - i,
        {
            if !found && *vstd::slice::slice_index_get(chars, i) == 0 {
                nul_index = i;
                found = true;
            }
            i = i + 1;
        }
        let prefix = vstd::slice::slice_subrange(chars, 0, nul_index);
        proof {
            if found {
                let w = choose|i: int| (0 <= i < chars@.len() && chars@[i] == 0 && forall|j: int|
                    0 <= j < i ==> chars@[j] != 0);
                assert(w == nul_index as int);
                assert(prefix@ =~= chars@.take(nul_index as int));
                assert(prefix@ == nul_cut(chars@));
            } else {
                assert(prefix@ =~= Seq::<u16>::empty());
                assert(prefix@ == nul_cut(chars@));
            }
        }
        match decode_utf16(prefix) {
            Some(s) => Ok(s),
            None => Err(StringError::InvalidUtf16),
        }
    }
}

/// The code units before the first NUL, or none when no NUL terminates
/// the buffer.
pub open spec fn nul_cut(units: Seq<u16>) -> Seq<u16> {
    if exists|i: int| 0 <= i < units.len() && units[i] == 0 {
        units.take(
            choose|i: int|
                (0 <= i < units.len() && units[i] == 0 && forall|j: int|
                    0 <= j < i ==> units[j] != 0),
        )
    } else {
        Seq::empty()
    }
}

} // verus!
