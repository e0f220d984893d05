//! Compiled-shader bookkeeping and shader-source text utilities.
//!
//! A [`Shader`] is the library's record of one linked program: the device
//! program identifier plus the attribute and uniform name-to-location maps
//! the host captured at link time; both are immutable afterwards. Uniform
//! setters look a name up and record the device call at its location.
//!
//! [`Define`], [`add_header`] and [`add_row_numbers`] assemble and annotate
//! GLSL source text; their output is pinned down character for character.

use vstd::prelude::*;

use crate::device::{Device, DeviceCall};
use crate::gl::AttributeOptions;
use crate::mat4::Mat4;

verus! {

/// The decimal digit character for `d` in `0..10`.
pub open spec fn spec_digit(d: int) -> char {
    if d == 0 { '0' }
    else if d == 1 { '1' }
    else if d == 2 { '2' }
    else if d == 3 { '3' }
    else if d == 4 { '4' }
    else if d == 5 { '5' }
    else if d == 6 { '6' }
    else if d == 7 { '7' }
    else if d == 8 { '8' }
    else { '9' }
}

/// The decimal digits of `n`, most significant first.
pub open spec fn spec_udec(n: nat) -> Seq<char>
    decreases n,
{
    if n < 10 {
        seq![spec_digit(n as int)]
    } else {
        spec_udec(n / 10) + seq![spec_digit((n % 10) as int)]
    }
}

/// The decimal rendering of `v`, with a leading minus sign when negative.
pub open spec fn spec_idec(v: int) -> Seq<char> {
    if v < 0 {
        seq!['-'] + spec_udec((-v) as nat)
    } else {
        spec_udec(v as nat)
    }
}

/// Appends the digit character of `d` to `s`.
fn push_digit(s: &mut String, d: u128)
    requires
        d < 10,
    ensures
        final(s)@ == old(s)@ + seq![spec_digit(d as int)],
{
    proof {
        reveal_strlit("0");
        reveal_strlit("1");
        reveal_strlit("2");
        reveal_strlit("3");
        reveal_strlit("4");
        reveal_strlit("5");
        reveal_strlit("6");
        reveal_strlit("7");
        reveal_strlit("8");
        reveal_strlit("9");
    }
    if d == 0 {
        s.append("0");
    } else if d == 1 {
        s.append("1");
    } else if d == 2 {
        s.append("2");
    } else if d == 3 {
        s.append("3");
    } else if d == 4 {
        s.append("4");
    } else if d == 5 {
        s.append("5");
    } else if d == 6 {
        s.append("6");
    } else if d == 7 {
        s.append("7");
    } else if d == 8 {
        s.append("8");
    } else {
        s.append("9");
    }
    proof {
        assert(final(s)@ =~= old(s)@ + seq![spec_digit(d as int)]);
    }
}

/// Appends the decimal digits of `n` to `s`.
fn push_udec(s: &mut String, n: u128)
    ensures
        final(s)@ == old(s)@ + spec_udec(n as nat),
    decreases n,
{
    if n >= 10 {
        push_udec(s, n / 10);
        push_digit(s, n % 10);
        proof {
            assert(old(s)@ + spec_udec((n / 10) as nat) + seq![spec_digit((n % 10) as int)]
                =~= old(s)@ + spec_udec(n as nat));
        }
    } else {
        push_digit(s, n);
    }
}

/// Appends the decimal rendering of `v` to `s`.
fn push_idec(s: &mut String, v: i64)
    ensures
        final(s)@ == old(s)@ + spec_idec(v as int),
{
    if v < 0 {
        proof {
            reveal_strlit("-");
        }
        s.append("-");
        let ghost mid = s@;
        let m: u128 = if v == i64::MIN {
            9223372036854775808u128
        } else {
            (-v) as u128
        };
        proof {
            assert(m as int == -(v as int));
        }
        push_udec(s, m);
        proof {
            assert("-"@ =~= seq!['-']);
            assert(old(s)@ + "-"@ + spec_udec(m as nat) =~= old(s)@ + spec_idec(v as int));
        }
    } else {
        push_udec(s, v as u128);
    }
}

/// A preprocessor define for shader sources: a name with an optional value.
#[derive(Debug, Clone)]
pub struct Define {
    pub name: String,
    pub value: Option<String>,
}

/// The mathematical image of a [`Define`].
pub struct DefineView {
    pub name: Seq<char>,
    pub value: Option<Seq<char>>,
}

impl View for Define {
    type V = DefineView;

    open spec fn view(&self) -> DefineView {
        DefineView {
            name: self.name@,
            value: match self.value {
                Some(ref v) => Some(v@),
                None => None,
            },
        }
    }
}

/// The source line a define renders to, without its newline.
pub open spec fn spec_define_line(d: DefineView) -> Seq<char> {
    "#define "@ + d.name + (match d.value {
        Some(v) => " "@ + v,
        None => Seq::empty(),
    })
}

impl Define {
    /// A define with the given name and optional value.
    pub fn new(name: &str, value: Option<&str>) -> (r: Define)
        ensures
            r@.name == name@,
            r@.value == (match value {
                Some(v) => Some(v@),
                None => None::<Seq<char>>,
            }),
    {
        Define {
            name: String::from_str(name),
            value: match value {
                Some(v) => Some(String::from_str(v)),
                None => None,
            },
        }
    }

    /// A value-less define.
    pub fn def(name: &str) -> (r: Define)
        ensures
            r@.name == name@,
            r@.value is None,
    {
        Define::new(name, None)
    }

    /// A define carrying the decimal rendering of an integer.
    pub fn integer(name: &str, v: i32) -> (r: Define)
        ensures
            r@.name == name@,
            r@.value == Some(spec_idec(v as int)),
    {
        let mut value = String::new();
        push_idec(&mut value, v as i64);
        proof {
            assert(value@ =~= spec_idec(v as int));
        }
        Define { name: String::from_str(name), value: Some(value) }
    }

    /// Renders the define as its `#define` source line (without newline).
    pub fn as_string(&self) -> (r: String)
        ensures
            r@ == spec_define_line(self@),
    {
        let mut result = String::from_str("#define ");
        result.append(self.name.as_str());
        if let Some(value) = &self.value {
            result.append(" ");
            result.append(value.as_str());
        }
        proof {
            assert(result@ =~= spec_define_line(self@));
        }
        result
    }
}

/// The define lines of a list, each followed by a newline.
pub open spec fn spec_define_lines(ds: Seq<Define>) -> Seq<char>
    decreases ds.len(),
{
    if ds.len() == 0 {
        Seq::empty()
    } else {
        spec_define_lines(ds.drop_last()) + spec_define_line(ds.last()@) + "\n"@
    }
}

/// The full header-extended source: an optional precision pragma, the
/// define block (followed by a blank line when nonempty), then the source.
pub open spec fn spec_header(src: Seq<char>, defines: Seq<Define>, with_precision: bool) -> Seq<
    char,
> {
    (if with_precision {
        "precision highp float;\n\n"@
    } else {
        Seq::empty()
    }) + (if defines.len() == 0 {
        Seq::empty()
    } else {
        spec_define_lines(defines) + "\n"@
    }) + src
}

/// Prepends the precision pragma (for fragment sources) and the define
/// block to a shader source.
pub fn add_header(src: &str, defines: &[Define], with_precision: bool) -> (r: String)
    ensures
        r@ == spec_header(src@, defines@, with_precision),
{
    let mut result = String::new();
    if with_precision {
        result.append("precision highp float;\n\n");
    }
    if defines.len() > 0 {
        let mut k: usize = 0;
        while k < defines.len()
            invariant
                k <= defines@.len(),
                result@ == (if with_precision {
                    "precision highp float;\n\n"@
                } else {
                    Seq::<char>::empty()
                }) + spec_define_lines(defines@.subrange(0, k as int)),
            decreases defines@.len() - k,
        {
            let line = defines[k].as_string();
            result.append(line.as_str());
            result.append("\n");
            k = k + 1;
            proof {
                assert(defines@.subrange(0, k as int).drop_last() =~= defines@.subrange(
                    0,
                    k as int - 1,
                ));
                assert(defines@.subrange(0, k as int).last() == defines@[k as int - 1]);
                assert(result@ =~= (if with_precision {
                    "precision highp float;\n\n"@
                } else {
                    Seq::<char>::empty()
                }) + spec_define_lines(defines@.subrange(0, k as int)));
            }
        }
        proof {
            assert(defines@.subrange(0, defines@.len() as int) =~= defines@);
        }
        result.append("\n");
    }
    result.append(src);
    proof {
        assert(result@ =~= spec_header(src@, defines@, with_precision));
    }
    result
}

/// Number of characters before the first newline of `s` (all of `s` if it
/// has none).
pub open spec fn spec_prefix_len(s: Seq<char>) -> nat
    decreases s.len(),
{
    if s.len() == 0 {
        0
    } else if s[0] == '\n' {
        0
    } else {
        1 + spec_prefix_len(s.drop_first())
    }
}

proof fn lemma_prefix_len_le(s: Seq<char>)
    ensures
        spec_prefix_len(s) <= s.len(),
    decreases s.len(),
{
    if s.len() > 0 && s[0] != '\n' {
        lemma_prefix_len_le(s.drop_first());
    }
}

/// A scan that found no newline before position `j`, and a newline or the
/// end at `j`, has measured the first line exactly.
proof fn lemma_prefix_len_scan(s: Seq<char>, j: int)
    requires
        0 <= j <= s.len(),
        forall|i: int| 0 <= i < j ==> s[i] != '\n',
        j == s.len() || s[j] == '\n',
    ensures
        spec_prefix_len(s) == j,
    decreases j,
{
    if j == 0 {
    } else {
        assert(s[0] != '\n');
        lemma_prefix_len_scan(s.drop_first(), j - 1);
    }
}

/// The lines of `s`, split on newlines; a trailing newline yields a final
/// empty line, and the empty text is one empty line.
pub open spec fn spec_split_lines(s: Seq<char>) -> Seq<Seq<char>>
    decreases s.len(),
    via spec_split_lines_decreases
{
    let k = spec_prefix_len(s) as int;
    if k == s.len() {
        seq![s]
    } else {
        seq![s.take(k)] + spec_split_lines(s.skip(k + 1))
    }
}

#[via_fn]
proof fn spec_split_lines_decreases(s: Seq<char>) {
    lemma_prefix_len_le(s);
}

/// Each line prefixed with its one-based row number and two spaces, and
/// followed by a newline.
pub open spec fn spec_number_lines(lines: Seq<Seq<char>>, start: nat) -> Seq<char>
    decreases lines.len(),
{
    if lines.len() == 0 {
        Seq::empty()
    } else {
        spec_udec(start) + "  "@ + lines[0] + "\n"@ + spec_number_lines(
            lines.drop_first(),
            start + 1,
        )
    }
}

/// Annotates a source text with one-based row numbers, line by line, for
/// compiler diagnostics.
pub fn add_row_numbers(src: &str) -> (r: String)
    ensures
        r@ == spec_number_lines(spec_split_lines(src@), 1),
{
    let n = src.unicode_len();
    let mut result = String::new();
    let mut line_start: usize = 0;
    let mut pos: usize = 0;
    let mut row: u128 = 1;
    proof {
        assert(src@.skip(0) =~= src@);
        assert(result@ + spec_number_lines(spec_split_lines(src@), 1) =~= spec_number_lines(
            spec_split_lines(src@),
            1,
        ));
    }
    while pos < n
        invariant
            line_start <= pos <= n,
            n == src@.len(),
            1 <= row,
            row <= line_start + 1,
            forall|i: int| line_start <= i < pos ==> src@[i] != '\n',
            result@ + spec_number_lines(
                spec_split_lines(src@.skip(line_start as int)),
                row as nat,
            ) == spec_number_lines(spec_split_lines(src@), 1),
        decreases n - pos,
    {
        let c = src.get_char(pos);
        if c == '\n' {
            push_udec(&mut result, row);
            result.append("  ");
            let line = src.substring_char(line_start, pos);
            result.append(line);
            result.append("\n");
            proof {
                let rem = src@.skip(line_start as int);
                lemma_prefix_len_scan(rem, pos - line_start);
                assert(rem.take(pos - line_start) =~= line@);
                assert(rem.skip(pos - line_start + 1) =~= src@.skip(pos + 1));
                assert(spec_split_lines(rem) == seq![line@] + spec_split_lines(
                    src@.skip(pos + 1),
                ));
                let tail_lines = spec_split_lines(src@.skip(pos + 1));
                assert((seq![line@] + tail_lines).drop_first() =~= tail_lines);
                assert((seq![line@] + tail_lines)[0] == line@);
                assert(result@ + spec_number_lines(tail_lines, (row + 1) as nat)
                    =~= spec_number_lines(spec_split_lines(src@), 1));
            }
            row = row + 1;
            pos = pos + 1;
            line_start = pos;
        } else {
            pos = pos + 1;
        }
    }
    push_udec(&mut result, row);
    result.append("  ");
    let line = src.substring_char(line_start, n);
    result.append(line);
    result.append("\n");
    proof {
        let rem = src@.skip(line_start as int);
        lemma_prefix_len_scan(rem, n - line_start);
        assert(rem =~= line@);
        assert(spec_split_lines(rem) == seq![line@]);
        let one = seq![line@];
        assert(one.drop_first() =~= Seq::<Seq<char>>::empty());
        assert(spec_number_lines(Seq::<Seq<char>>::empty(), (row + 1) as nat) == Seq::<
            char,
        >::empty());
        assert(one[0] == line@);
        assert(spec_number_lines(one, row as nat) =~= spec_udec(row as nat) + "  "@ + line@
            + "\n"@);
        assert(result@ =~= spec_number_lines(spec_split_lines(src@), 1));
    }
    result
}

/// The annotated form of a shader-compile failure: the compiler's message
/// followed by the offending source with one-based row numbers, as it is
/// surfaced to the person diagnosing it.
pub open spec fn spec_annotated_compile_error(message: Seq<char>, source: Seq<char>) -> Seq<
    char,
> {
    "\n"@ + message + "\n\n"@ + spec_number_lines(spec_split_lines(source), 1) + "\n"@
}

/// Assembles the fatal shader-compile diagnostic: the compiler's message,
/// a blank line, then the source annotated with row numbers.
pub fn annotate_compile_error(message: &str, source: &str) -> (r: String)
    ensures
        r@ == spec_annotated_compile_error(message@, source@),
{
    let mut result = String::from_str("\n");
    result.append(message);
    result.append("\n\n");
    let numbered = add_row_numbers(source);
    result.append(numbered.as_str());
    result.append("\n");
    proof {
        assert(result@ =~= spec_annotated_compile_error(message@, source@));
    }
    result
}

/// Finds the location registered under `name`, first match wins.
pub open spec fn spec_lookup(s: Seq<(Seq<char>, u32)>, name: Seq<char>) -> Option<u32>
    decreases s.len(),
{
    if s.len() == 0 {
        None
    } else if s[0].0 == name {
        Some(s[0].1)
    } else {
        spec_lookup(s.drop_first(), name)
    }
}

/// A prefix of mismatches does not change what a lookup finds.
proof fn lemma_lookup_skip(s: Seq<(Seq<char>, u32)>, name: Seq<char>, k: int)
    requires
        0 <= k <= s.len(),
        forall|i: int| 0 <= i < k ==> (#[trigger] s[i]).0 != name,
    ensures
        spec_lookup(s, name) == spec_lookup(s.skip(k), name),
    decreases k,
{
    if k > 0 {
        assert(s[0].0 != name);
        lemma_lookup_skip(s.drop_first(), name, k - 1);
        assert(s.drop_first().skip(k - 1) =~= s.skip(k));
    } else {
        assert(s.skip(0) =~= s);
    }
}

/// One linked shader program: its device identifier and the attribute and
/// uniform name-to-location maps captured at link time.
#[derive(Debug)]
pub struct Shader {
    program: u64,
    attribute_locations: Vec<(String, u32)>,
    uniform_locations: Vec<(String, u32)>,
}

impl Shader {
    /// The device program identifier.
    pub closed spec fn spec_program(&self) -> u64 {
        self.program
    }

    /// The attribute map is small enough to count in a device slot index.
    pub closed spec fn wf(&self) -> bool {
        self.attribute_locations@.len() <= u32::MAX
    }

    /// The attribute name-to-location pairs, in link-report order.
    pub closed spec fn attributes(&self) -> Seq<(Seq<char>, u32)> {
        self.attribute_locations@.map_values(|p: (String, u32)| (p.0@, p.1))
    }

    /// The uniform name-to-location pairs, in link-report order.
    pub closed spec fn uniforms(&self) -> Seq<(Seq<char>, u32)> {
        self.uniform_locations@.map_values(|p: (String, u32)| (p.0@, p.1))
    }

    /// Wraps a link report: the program identifier and the two location
    /// maps the host read back after linking.
    pub fn new(
        program: u64,
        attribute_locations: Vec<(String, u32)>,
        uniform_locations: Vec<(String, u32)>,
    ) -> (r: Shader)
        requires
            attribute_locations@.len() <= u32::MAX,
        ensures
            r.wf(),
            r.spec_program() == program,
            r.attributes() == attribute_locations@.map_values(|p: (String, u32)| (p.0@, p.1)),
            r.uniforms() == uniform_locations@.map_values(|p: (String, u32)| (p.0@, p.1)),
    {
        Shader { program, attribute_locations, uniform_locations }
    }

    /// The device program identifier, as a value.
    pub fn program_id(&self) -> (r: u64)
        ensures
            r == self.spec_program(),
    {
        self.program
    }

    /// How many attributes the program exposes.
    pub fn attribute_count(&self) -> (r: usize)
        ensures
            r == self.attributes().len(),
    {
        self.attribute_locations.len()
    }

    /// The attribute name at a link-report position.
    pub fn attribute_name_at(&self, i: usize) -> (r: &String)
        requires
            i < self.attributes().len(),
        ensures
            r@ == self.attributes()[i as int].0,
    {
        &self.attribute_locations[i].0
    }

    /// The attribute location at a link-report position.
    pub fn attribute_location_at(&self, i: usize) -> (r: u32)
        requires
            i < self.attributes().len(),
        ensures
            r == self.attributes()[i as int].1,
    {
        self.attribute_locations[i].1
    }

    /// Looks a uniform location up by name.
    fn uniform_location(&self, name: &str) -> (r: Option<u32>)
        ensures
            r == spec_lookup(self.uniforms(), name@),
    {
        let needle = String::from_str(name);
        let mut k: usize = 0;
        while k < self.uniform_locations.len()
            invariant
                k <= self.uniforms().len(),
                needle@ == name@,
                forall|i: int| 0 <= i < k ==> (#[trigger] self.uniforms()[i]).0 != name@,
            decreases self.uniforms().len() - k,
        {
            if self.uniform_locations[k].0.eq(&needle) {
                proof {
                    lemma_lookup_skip(self.uniforms(), name@, k as int);
                    assert(self.uniforms().skip(k as int)[0] == self.uniforms()[k as int]);
                }
                return Some(self.uniform_locations[k].1);
            }
            k = k + 1;
        }
        proof {
            lemma_lookup_skip(self.uniforms(), name@, k as int);
            assert(self.uniforms().skip(k as int).len() == 0);
        }
        None
    }

    /// Records binding this program for the draws that follow.
    pub fn bind(&self, device: &mut Device)
        ensures
            final(device).calls() == old(device).calls().push(
                DeviceCall::UseProgram { program: self.spec_program() },
            ),
            final(device).attrib_count() == old(device).attrib_count(),
    {
        device.use_program(self.program);
    }

    /// Sets a boolean uniform (as the integers 0 and 1); a name the program
    /// does not expose records nothing.
    pub fn set_bool(&self, device: &mut Device, name: &str, v: bool) -> (r: Option<()>)
        ensures
            match spec_lookup(self.uniforms(), name@) {
                Some(loc) => r is Some && final(device).calls() == old(device).calls().push(
                    DeviceCall::SetUniformInt { location: loc, v: if v { 1 } else { 0 } },
                ),
                None => r is None && final(device).calls() == old(device).calls(),
            },
            final(device).attrib_count() == old(device).attrib_count(),
    {
        match self.uniform_location(name) {
            Some(location) => {
                device.push_call(DeviceCall::SetUniformInt { location, v: if v { 1 } else { 0 } });
                Some(())
            },
            None => None,
        }
    }

    /// Sets an integer uniform; a name the program does not expose records
    /// nothing.
    pub fn set_integer(&self, device: &mut Device, name: &str, v: i32) -> (r: Option<()>)
        ensures
            match spec_lookup(self.uniforms(), name@) {
                Some(loc) => r is Some && final(device).calls() == old(device).calls().push(
                    DeviceCall::SetUniformInt { location: loc, v },
                ),
                None => r is None && final(device).calls() == old(device).calls(),
            },
            final(device).attrib_count() == old(device).attrib_count(),
    {
        match self.uniform_location(name) {
            Some(location) => {
                device.push_call(DeviceCall::SetUniformInt { location, v });
                Some(())
            },
            None => None,
        }
    }

    /// Sets a two-component uniform; a name the program does not expose
    /// records nothing.
    pub fn set_vector2(&self, device: &mut Device, name: &str, x: i64, y: i64) -> (r: Option<()>)
        ensures
            match spec_lookup(self.uniforms(), name@) {
                Some(loc) => r is Some && final(device).calls() == old(device).calls().push(
                    DeviceCall::SetUniformVec2 { location: loc, x, y },
                ),
                None => r is None && final(device).calls() == old(device).calls(),
            },
            final(device).attrib_count() == old(device).attrib_count(),
    {
        match self.uniform_location(name) {
            Some(location) => {
                device.push_call(DeviceCall::SetUniformVec2 { location, x, y });
                Some(())
            },
            None => None,
        }
    }

    /// Sets a color uniform; a name the program does not expose records
    /// nothing.
    pub fn set_color(&self, device: &mut Device, name: &str, cr: u8, cg: u8, cb: u8) -> (r: Option<
        (),
    >)
        ensures
            match spec_lookup(self.uniforms(), name@) {
                Some(loc) => r is Some && final(device).calls() == old(device).calls().push(
                    DeviceCall::SetUniformColor { location: loc, r: cr, g: cg, b: cb },
                ),
                None => r is None && final(device).calls() == old(device).calls(),
            },
            final(device).attrib_count() == old(device).attrib_count(),
    {
        match self.uniform_location(name) {
            Some(location) => {
                device.push_call(DeviceCall::SetUniformColor { location, r: cr, g: cg, b: cb });
                Some(())
            },
            None => None,
        }
    }

    /// Sets a matrix uniform; a name the program does not expose records
    /// nothing.
    pub fn set_matrix4(&self, device: &mut Device, name: &str, m: &Mat4) -> (r: Option<()>)
        ensures
            match spec_lookup(self.uniforms(), name@) {
                Some(loc) => r is Some && final(device).calls() == old(device).calls().push(
                    DeviceCall::SetUniformMat4 { location: loc, m: *m },
                ),
                None => r is None && final(device).calls() == old(device).calls(),
            },
            final(device).attrib_count() == old(device).attrib_count(),
    {
        match self.uniform_location(name) {
            Some(location) => {
                device.push_call(DeviceCall::SetUniformMat4 { location, m: *m });
                Some(())
            },
            None => None,
        }
    }

    /// Sets a normal-matrix uniform: the host uploads the inverse-transpose
    /// of the upper 3x3 of `m`. A name the program does not expose records
    /// nothing.
    pub fn set_normal_matrix(&self, device: &mut Device, name: &str, m: &Mat4) -> (r: Option<()>)
        ensures
            match spec_lookup(self.uniforms(), name@) {
                Some(loc) => r is Some && final(device).calls() == old(device).calls().push(
                    DeviceCall::SetUniformMat3NormalOf { location: loc, m: *m },
                ),
                None => r is None && final(device).calls() == old(device).calls(),
            },
            final(device).attrib_count() == old(device).attrib_count(),
    {
        match self.uniform_location(name) {
            Some(location) => {
                device.push_call(DeviceCall::SetUniformMat3NormalOf { location, m: *m });
                Some(())
            },
            None => None,
        }
    }

    /// Sets an inverse-matrix uniform: the host uploads the inverse of `m`.
    /// A name the program does not expose records nothing.
    pub fn set_matrix4_inverse(&self, device: &mut Device, name: &str, m: &Mat4) -> (r: Option<()>)
        ensures
            match spec_lookup(self.uniforms(), name@) {
                Some(loc) => r is Some && final(device).calls() == old(device).calls().push(
                    DeviceCall::SetUniformMat4InverseOf { location: loc, m: *m },
                ),
                None => r is None && final(device).calls() == old(device).calls(),
            },
            final(device).attrib_count() == old(device).attrib_count(),
    {
        match self.uniform_location(name) {
            Some(location) => {
                device.push_call(DeviceCall::SetUniformMat4InverseOf { location, m: *m });
                Some(())
            },
            None => None,
        }
    }

    /// Records the attribute layout of one accessor at the given location.
    pub fn bind_attribute_at(&self, device: &mut Device, location: u32, options: &AttributeOptions)
        ensures
            final(device).calls() == old(device).calls().push(
                DeviceCall::VertexAttribPointer {
                    location,
                    item_size: options.item_size,
                    kind: options.component_type,
                    normalized: options.normalized,
                    stride: options.stride,
                    offset: options.offset,
                },
            ),
            final(device).attrib_count() == old(device).attrib_count(),
    {
        device.push_call(
            DeviceCall::VertexAttribPointer {
                location,
                item_size: options.item_size,
                kind: options.component_type,
                normalized: options.normalized,
                stride: options.stride,
                offset: options.offset,
            },
        );
    }
}

} // verus!
