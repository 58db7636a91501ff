//! Rewriting of desktop GLSL shader text for GLSL ES.
use vstd::prelude::*;
use vstd::std_specs::iter::IteratorSpec;

verus! {

broadcast use vstd::string::group_string_axioms, vstd::string::next_postcondition;

/// White space as `char::is_whitespace` knows it: the characters of the
/// Unicode `White_Space` property.
pub open spec fn is_space(c: char) -> bool {
    let u = c as u32;
    ||| 0x09 <= u <= 0x0D
    ||| u == 0x20
    ||| u == 0x85
    ||| u == 0xA0
    ||| u == 0x1680
    ||| 0x2000 <= u <= 0x200A
    ||| u == 0x2028
    ||| u == 0x2029
    ||| u == 0x202F
    ||| u == 0x205F
    ||| u == 0x3000
}

/// Whether `c` is white space.
pub fn is_space_char(c: char) -> (r: bool)
    ensures
        r == is_space(c),
{
    let u = c as u32;
    (0x09 <= u && u <= 0x0D) || u == 0x20 || u == 0x85 || u == 0xA0 || u == 0x1680 || (0x2000
        <= u && u <= 0x200A) || u == 0x2028 || u == 0x2029 || u == 0x202F || u == 0x205F || u
        == 0x3000
}

/// End of the run of white space of `s` that starts at `i`.
pub open spec fn space_end(s: Seq<char>, i: int) -> int
    decreases s.len() - i,
{
    if 0 <= i < s.len() && is_space(s[i]) {
        space_end(s, i + 1)
    } else {
        i
    }
}

/// Start of the run of white space of `s` that ends at `j`.
pub open spec fn space_start(s: Seq<char>, j: int) -> int
    decreases j,
{
    if 0 < j <= s.len() && is_space(s[j - 1]) {
        space_start(s, j - 1)
    } else {
        j
    }
}

/// Position of the first `c` of `s` at or after `i`.
pub open spec fn find_from(s: Seq<char>, c: char, i: int) -> Option<int>
    decreases s.len() - i,
{
    if i < 0 || i >= s.len() {
        None
    } else if s[i] == c {
        Some(i)
    } else {
        find_from(s, c, i + 1)
    }
}

pub open spec fn uniform_keyword() -> Seq<char> {
    seq!['u', 'n', 'i', 'f', 'o', 'r', 'm', ' ']
}

/// `line` without the initializer of the `uniform` declaration that it
/// holds. Where the line, after its leading white space, starts with
/// `uniform ` and its first `=` comes before its first `;`, the text from
/// the white space before that `=` up to and with that `;` becomes a single
/// `;`. Any other line is kept as it is.
pub open spec fn strip_initializer(line: Seq<char>) -> Seq<char> {
    let k = space_end(line, 0);
    if k + 8 <= line.len() && line.subrange(k, k + 8) == uniform_keyword() {
        match (find_from(line, '=', k), find_from(line, ';', k)) {
            (Some(e), Some(c)) => if e < c {
                line.take(space_start(line, e)) + seq![';'] + line.skip(c + 1)
            } else {
                line
            },
            _ => line,
        }
    } else {
        line
    }
}

/// The first `c` of `v` at or after `i`.
fn find_char_from(v: &Vec<char>, c: char, i: usize) -> (r: Option<usize>)
    requires
        i <= v.len(),
    ensures
        r matches Some(j) ==> find_from(v@, c, i as int) == Some(j as int) && i <= j < v.len() && v@[j as int] == c,
        r is None ==> find_from(v@, c, i as int) is None,
{
    let mut j: usize = i;
    while j < v.len()
        invariant
            i <= j <= v.len(),
            find_from(v@, c, i as int) == find_from(v@, c, j as int),
        decreases v.len() - j,
    {
        if v[j] == c {
            return Some(j);
        }
        j = j + 1;
    }
    None
}

/// `line` without the initializer of its `uniform` declaration: GLSL ES
/// accepts none there.
pub fn strip_uniform_initializer(line: &str) -> (r: String)
    ensures
        r@ == strip_initializer(line@),
{
    let v = chars_of(line);
    let n = v.len();
    let mut k: usize = 0;
    while k < n && is_space_char(v[k])
        invariant
            k <= n == v.len(),
            space_end(v@, 0) == space_end(v@, k as int),
        decreases n - k,
    {
        k = k + 1;
    }
    if !(n - k >= 8 && v[k] == 'u' && v[k + 1] == 'n' && v[k + 2] == 'i' && v[k + 3] == 'f' && v[k
        + 4] == 'o' && v[k + 5] == 'r' && v[k + 6] == 'm' && v[k + 7] == ' ') {
        proof {
            if k + 8 <= n {
                let w = v@.subrange(k as int, k + 8);
                if w == uniform_keyword() {
                    assert(w[0] == 'u' && w[1] == 'n' && w[2] == 'i' && w[3] == 'f' && w[4] == 'o'
                        && w[5] == 'r' && w[6] == 'm' && w[7] == ' ');
                }
            }
        }
        return String::from_str(line);
    }
    assert(v@.subrange(k as int, k + 8) =~= uniform_keyword());
    let e = match find_char_from(&v, '=', k) {
        Some(e) => e,
        None => {
            return String::from_str(line);
        },
    };
    let c = match find_char_from(&v, ';', k) {
        Some(c) => c,
        None => {
            return String::from_str(line);
        },
    };
    if e > c {
        return String::from_str(line);
    }
    let mut j: usize = e;
    while j > 0 && is_space_char(v[j - 1])
        invariant
            j <= e < n == v.len(),
            space_start(v@, e as int) == space_start(v@, j as int),
        decreases j,
    {
        j = j - 1;
    }
    let mut out = String::from_str(line.substring_char(0, j));
    out.append(";");
    out.append(line.substring_char(c + 1, n));
    proof {
        reveal_strlit(";");
        assert(";"@ =~= seq![';']);
        assert(e < c);
        assert(space_start(line@, e as int) == j);
        assert(out@ =~= line@.take(j as int) + seq![';'] + line@.skip(c + 1));
        assert(out@ =~= strip_initializer(line@));
    }
    out
}

/// Whether `p` occurs in `s` at position `i`.
pub open spec fn occurs_at(s: Seq<char>, p: Seq<char>, i: int) -> bool {
    0 <= i && i + p.len() <= s.len() && s.subrange(i, i + p.len()) == p
}

pub open spec fn contains(s: Seq<char>, p: Seq<char>) -> bool {
    exists|i: int| occurs_at(s, p, i)
}

pub open spec fn ends_with(s: Seq<char>, p: Seq<char>) -> bool {
    occurs_at(s, p, s.len() - p.len())
}

/// `s` from position `i` on, with each occurrence of the non-empty `pat`
/// replaced by `rep`, taking occurrences from the left without overlap.
pub open spec fn replace_from(s: Seq<char>, pat: Seq<char>, rep: Seq<char>, i: int) -> Seq<char>
    decreases s.len() - i,
{
    if i < 0 || i >= s.len() {
        seq![]
    } else if pat.len() > 0 && occurs_at(s, pat, i) {
        rep + replace_from(s, pat, rep, i + pat.len())
    } else {
        seq![s[i]] + replace_from(s, pat, rep, i + 1)
    }
}

/// A line without the `\r` of a `\r\n` ending.
pub open spec fn strip_cr(l: Seq<char>) -> Seq<char> {
    if l.len() > 0 && l.last() == '\r' {
        l.drop_last()
    } else {
        l
    }
}

/// The lines of `s` from a line that starts at `start`, scanned from `i`:
/// a line ends at `\n` or `\r\n`, which it does not hold, and a last line
/// ending adds no empty line.
pub open spec fn lines_scan(s: Seq<char>, start: int, i: int) -> Seq<Seq<char>>
    decreases s.len() - i,
{
    if i >= s.len() {
        if start < s.len() {
            seq![s.subrange(start, s.len() as int)]
        } else {
            seq![]
        }
    } else if s[i] == '\n' {
        seq![strip_cr(s.subrange(start, i))] + lines_scan(s, i + 1, i + 1)
    } else {
        lines_scan(s, start, i + 1)
    }
}

pub open spec fn lines_of(s: Seq<char>) -> Seq<Seq<char>> {
    lines_scan(s, 0, 0)
}

/// Whether `p` occurs in `v` at position `i`.
fn occurs_at_exec(v: &Vec<char>, p: &Vec<char>, i: usize) -> (r: bool)
    ensures
        r == occurs_at(v@, p@, i as int),
{
    if i > v.len() || p.len() > v.len() - i {
        return false;
    }
    let mut j: usize = 0;
    while j < p.len()
        invariant
            i + p.len() <= v.len(),
            j <= p.len(),
            forall|k: int| 0 <= k < j ==> v@[i + k] == p@[k],
        decreases p.len() - j,
    {
        if v[i + j] != p[j] {
            assert(v@.subrange(i as int, i + p.len())[j as int] != p@[j as int]);
            return false;
        }
        j = j + 1;
    }
    assert(v@.subrange(i as int, i + p.len()) =~= p@);
    true
}

/// Whether `p` occurs in `s`.
pub fn contains_text(s: &str, p: &str) -> (r: bool)
    ensures
        r == contains(s@, p@),
{
    let v = chars_of(s);
    let pv = chars_of(p);
    if pv.len() > v.len() {
        return false;
    }
    let limit = v.len() - pv.len();
    let mut i: usize = 0;
    while i < limit
        invariant
            v@ == s@,
            pv@ == p@,
            limit == v.len() - pv.len(),
            i <= limit,
            forall|k: int| 0 <= k < i ==> !occurs_at(s@, p@, k),
        decreases limit - i,
    {
        if occurs_at_exec(&v, &pv, i) {
            return true;
        }
        i = i + 1;
    }
    occurs_at_exec(&v, &pv, limit)
}

/// Whether `s` ends with `p`.
pub fn ends_with_text(s: &str, p: &str) -> (r: bool)
    ensures
        r == ends_with(s@, p@),
{
    let v = chars_of(s);
    let pv = chars_of(p);
    if pv.len() > v.len() {
        return false;
    }
    occurs_at_exec(&v, &pv, v.len() - pv.len())
}

/// `s` with each occurrence of the non-empty `pat` replaced by `rep`, as
/// `str::replace` does it.
pub fn replace_all(s: &str, pat: &str, rep: &str) -> (r: String)
    requires
        pat@.len() > 0,
    ensures
        r@ == replace_from(s@, pat@, rep@, 0),
{
    let v = chars_of(s);
    let pv = chars_of(pat);
    let n = v.len();
    let mut out = String::new();
    let mut start: usize = 0;
    let mut i: usize = 0;
    while i < n
        invariant
            v@ == s@,
            pv@ == pat@,
            pat@.len() > 0,
            n == v.len(),
            start <= i <= n,
            out@ + s@.subrange(start as int, i as int) + replace_from(s@, pat@, rep@, i as int)
                == replace_from(s@, pat@, rep@, 0),
        decreases n - i,
    {
        if occurs_at_exec(&v, &pv, i) {
            let ghost before = out@;
            out.append(s.substring_char(start, i));
            out.append(rep);
            i = i + pv.len();
            start = i;
            assert(s@.subrange(start as int, i as int) =~= seq![]);
            assert(out@ + s@.subrange(start as int, i as int) =~= out@);
        } else {
            assert(s@.subrange(start as int, i + 1) =~= s@.subrange(start as int, i as int) + seq![
                s@[i as int],
            ]);
            i = i + 1;
        }
    }
    out.append(s.substring_char(start, n));
    assert(out@ =~= replace_from(s@, pat@, rep@, 0));
    out
}

/// The lines of `s`, as `str::lines` gives them.
pub fn split_lines(s: &str) -> (r: Vec<String>)
    ensures
        r.len() == lines_of(s@).len(),
        forall|j: int| 0 <= j < r.len() ==> #[trigger] r@[j]@ == lines_of(s@)[j],
{
    let v = chars_of(s);
    let n = v.len();
    let mut out: Vec<String> = Vec::new();
    let ghost views: Seq<Seq<char>> = seq![];
    let mut start: usize = 0;
    let mut i: usize = 0;
    while i < n
        invariant
            v@ == s@,
            n == v.len(),
            start <= i <= n,
            out.len() == views.len(),
            forall|j: int| 0 <= j < out.len() ==> #[trigger] out@[j]@ == views[j],
            views + lines_scan(s@, start as int, i as int) == lines_of(s@),
        decreases n - i,
    {
        if v[i] == '\n' {
            let end = if i > start && v[i - 1] == '\r' {
                i - 1
            } else {
                i
            };
            let line = String::from_str(s.substring_char(start, end));
            assert(line@ == strip_cr(s@.subrange(start as int, i as int))) by {
                if i > start {
                    assert(s@.subrange(start as int, i as int).last() == v@[i - 1]);
                    if v@[i - 1] == '\r' {
                        assert(s@.subrange(start as int, i as int).drop_last() =~= s@.subrange(
                            start as int,
                            i - 1,
                        ));
                    }
                }
            }
            proof {
                views = views.push(line@);
            }
            out.push(line);
            start = i + 1;
        }
        i = i + 1;
    }
    if start < n {
        let line = String::from_str(s.substring_char(start, n));
        proof {
            views = views.push(line@);
        }
        out.push(line);
    }
    assert(views =~= lines_of(s@));
    out
}

/// The lines from `j` on, each ended by `\n`; in a fragment shader each
/// without its uniform initializer.
pub open spec fn body_from(ls: Seq<Seq<char>>, j: int, frag: bool) -> Seq<char>
    decreases ls.len() - j,
{
    if j < 0 || j >= ls.len() {
        seq![]
    } else {
        (if frag {
            strip_initializer(ls[j])
        } else {
            ls[j]
        }) + "\n"@ + body_from(ls, j + 1, frag)
    }
}

/// Default precision qualifiers that GLSL ES wants in a fragment shader.
pub open spec fn precision_header() -> Seq<char> {
    "precision highp float;\n"@ + "precision highp sampler2D;\n"@
        + "precision highp sampler3D;\n"@ + "precision highp samplerCube;\n"@
}

/// The GLSL ES form of the shader `source` of file `name`: the desktop
/// version line `#version 330 core` becomes `#version 300 es` wherever it
/// occurs; then each line is ended by `\n`. In a fragment shader (`name` ends
/// with `.frag`) the default precision qualifiers follow the first line
/// unless the text already says `precision `, and the lines after the first
/// lose their uniform initializers.
pub open spec fn normalized(name: Seq<char>, source: Seq<char>) -> Seq<char> {
    let n = replace_from(source, "#version 330 core"@, "#version 300 es"@, 0);
    let ls = lines_of(n);
    let frag = ends_with(name, ".frag"@);
    (if ls.len() > 0 {
        ls[0] + "\n"@
    } else {
        seq![]
    }) + (if frag && !contains(n, "precision "@) {
        precision_header()
    } else {
        seq![]
    }) + body_from(ls, 1, frag)
}

/// The shader `source` of file `name` rewritten for GLSL ES.
pub fn normalize_shader_source(name: &str, source: &str) -> (r: String)
    ensures
        r@ == normalized(name@, source@),
{
    proof {
        reveal_strlit("#version 330 core");
    }
    let normalized_text = replace_all(source, "#version 330 core", "#version 300 es");
    let lines = split_lines(normalized_text.as_str());
    let frag = ends_with_text(name, ".frag");
    let ghost ls = lines_of(normalized_text@);
    let mut output = String::new();
    if lines.len() > 0 {
        output.append(lines[0].as_str());
        output.append("\n");
    }
    if frag && !contains_text(normalized_text.as_str(), "precision ") {
        output.append("precision highp float;\n");
        output.append("precision highp sampler2D;\n");
        output.append("precision highp sampler3D;\n");
        output.append("precision highp samplerCube;\n");
    }
    let ghost head = output@;
    let mut j: usize = 1;
    while j < lines.len()
        invariant
            lines.len() == ls.len(),
            forall|k: int| 0 <= k < lines.len() ==> #[trigger] lines@[k]@ == ls[k],
            1 <= j,
            j <= lines.len() || lines.len() == 0,
            output@ + body_from(ls, j as int, frag) == head + body_from(ls, 1, frag),
        decreases lines.len() - j,
    {
        if frag {
            let stripped = strip_uniform_initializer(lines[j].as_str());
            output.append(stripped.as_str());
        } else {
            output.append(lines[j].as_str());
        }
        output.append("\n");
        j = j + 1;
    }
    proof {
        assert(body_from(ls, j as int, frag) =~= seq![]);
        assert(output@ =~= normalized(name@, source@));
    }
    output
}

/// The characters of `s`, in order.
pub fn chars_of(s: &str) -> (r: Vec<char>)
    ensures
        r@ == s@,
{
    let mut r: Vec<char> = Vec::new();
    let mut it = s.chars();
    loop
        invariant
            r@ + it.remaining() == s@,
            it.decrease() is Some,
        ensures
            r@ == s@,
        decreases it.decrease()->0,
    {
        match it.next() {
            Some(c) => {
                r.push(c);
            },
            None => {
                assert(it.remaining().len() == 0);
                assert(r@ + it.remaining() =~= r@);
                break;
            },
        }
    }
    r
}

} // verus!
