//! The family-wide character index: each character any face supports, with
//! the names of the faces that have it.
use vstd::prelude::*;

verus! {

/// Does some face of `faces` list `c`?
pub open spec fn in_any(faces: Seq<(String, Vec<char>)>, c: char) -> bool {
    exists|f: int| 0 <= f < faces.len() && (#[trigger] faces[f]).1@.contains(c)
}

/// The names of the faces of `faces` that list `c`, in order.
pub open spec fn names_having(faces: Seq<(String, Vec<char>)>, c: char) -> Seq<Seq<char>>
    decreases faces.len(),
{
    if faces.len() == 0 {
        Seq::empty()
    } else {
        let rest = names_having(faces.drop_last(), c);
        if faces.last().1@.contains(c) {
            rest.push(faces.last().0@)
        } else {
            rest
        }
    }
}

/// Is `c` after `last` (any character is after `None`)?
pub open spec fn after(last: Option<char>, c: char) -> bool {
    match last {
        None => true,
        Some(l) => (l as u32) < (c as u32),
    }
}

/// Is `idx` the index of `faces`: its characters ascending and exactly those
/// some face lists, each with the names of the faces listing it, in order?
pub open spec fn is_merged_index(faces: Seq<(String, Vec<char>)>, idx: Seq<(char, Vec<String>)>) -> bool {
    &&& forall|i: int, j: int| 0 <= i < j < idx.len() ==> (#[trigger] idx[i].0 as u32) < (#[trigger] idx[j].0 as u32)
    &&& forall|i: int| 0 <= i < idx.len() ==> in_any(faces, #[trigger] idx[i].0)
    &&& forall|c: char| #[trigger] in_any(faces, c) ==> exists|i: int| 0 <= i < idx.len() && idx[i].0 == c
    &&& forall|i: int|
        0 <= i < idx.len() ==> (#[trigger] idx[i]).1@.map_values(|s: String| s@) == names_having(faces, idx[i].0)
}

/// Whether `chars` holds `c`.
pub fn list_has(chars: &Vec<char>, c: char) -> (r: bool)
    ensures
        r == chars@.contains(c),
{
    let mut k: usize = 0;
    while k < chars.len()
        invariant
            k <= chars@.len(),
            forall|j: int| 0 <= j < k ==> chars@[j] != c,
        decreases chars@.len() - k,
    {
        if chars[k] == c {
            assert(chars@[k as int] == c);
            return true;
        }
        k = k + 1;
    }
    false
}

/// The names of the faces that list `c`, in order.
pub fn names_for(faces: &Vec<(String, Vec<char>)>, c: char) -> (r: Vec<String>)
    ensures
        r@.map_values(|s: String| s@) == names_having(faces@, c),
{
    let mut names: Vec<String> = Vec::new();
    let mut f: usize = 0;
    while f < faces.len()
        invariant
            f <= faces@.len(),
            names@.map_values(|s: String| s@) == names_having(faces@.subrange(0, f as int), c),
        decreases faces@.len() - f,
    {
        let ghost pre = names@;
        assert(faces@.subrange(0, f + 1).drop_last() =~= faces@.subrange(0, f as int));
        if list_has(&faces[f].1, c) {
            names.push(faces[f].0.clone());
            assert(names@.map_values(|s: String| s@) =~= pre.map_values(|s: String| s@).push(faces@[f as int].0@));
        }
        f = f + 1;
    }
    assert(faces@.subrange(0, faces@.len() as int) =~= faces@);
    names
}

/// The smallest character after `last` that some face lists, if any.
pub fn next_char(faces: &Vec<(String, Vec<char>)>, last: Option<char>) -> (r: Option<char>)
    ensures
        r is None ==> forall|c: char| in_any(faces@, c) ==> !after(last, c),
        r matches Some(c) ==> in_any(faces@, c) && after(last, c) && forall|d: char|
            in_any(faces@, d) && after(last, d) ==> (c as u32) <= (d as u32),
{
    let mut best: Option<char> = None;
    let mut f: usize = 0;
    while f < faces.len()
        invariant
            f <= faces@.len(),
            best matches Some(b) ==> in_any(faces@, b) && after(last, b),
            forall|g: int, k: int|
                0 <= g < f && 0 <= k < faces@[g].1@.len() && after(last, #[trigger] faces@[g].1@[k])
                    ==> (best is Some && (best->Some_0 as u32) <= (faces@[g].1@[k] as u32)),
        decreases faces@.len() - f,
    {
        let chars = &faces[f].1;
        let mut k: usize = 0;
        while k < chars.len()
            invariant
                f < faces@.len(),
                *chars == faces@[f as int].1,
                k <= chars@.len(),
                best matches Some(b) ==> in_any(faces@, b) && after(last, b),
                forall|g: int, k2: int|
                    0 <= g < f && 0 <= k2 < faces@[g].1@.len() && after(last, #[trigger] faces@[g].1@[k2])
                        ==> (best is Some && (best->Some_0 as u32) <= (faces@[g].1@[k2] as u32)),
                forall|k2: int| 0 <= k2 < k && after(last, #[trigger] chars@[k2]) ==> (best is Some && (best->Some_0 as u32) <= (chars@[k2] as u32)),
            decreases chars@.len() - k,
        {
            let c = chars[k];
            let is_after = match last {
                None => true,
                Some(l) => (l as u32) < (c as u32),
            };
            if is_after {
                let better = match best {
                    None => true,
                    Some(b) => (c as u32) < (b as u32),
                };
                if better {
                    assert(faces@[f as int].1@.contains(c)) by {
                        assert(faces@[f as int].1@[k as int] == c);
                    }
                    best = Some(c);
                }
            }
            k = k + 1;
        }
        f = f + 1;
    }
    proof {
        assert forall|d: char| in_any(faces@, d) && after(last, d) implies (best is Some && (best->Some_0 as u32) <= (d as u32)) by {
            let g = choose|g: int| 0 <= g < faces@.len() && (#[trigger] faces@[g]).1@.contains(d);
            let k = choose|k: int| 0 <= k < faces@[g].1@.len() && faces@[g].1@[k] == d;
            assert(after(last, faces@[g].1@[k]));
        }
    }
    best
}

/// The index of `faces`: every character some face lists, ascending, with the
/// names of the faces listing it, in order.
pub fn merge_characters(faces: &Vec<(String, Vec<char>)>) -> (r: Vec<(char, Vec<String>)>)
    ensures
        is_merged_index(faces@, r@),
{
    let mut out: Vec<(char, Vec<String>)> = Vec::new();
    let mut last: Option<char> = None;
    loop
        invariant
            forall|i: int, j: int| 0 <= i < j < out@.len() ==> (#[trigger] out@[i].0 as u32) < (#[trigger] out@[j].0 as u32),
            forall|i: int| 0 <= i < out@.len() ==> in_any(faces@, #[trigger] out@[i].0),
            forall|c: char| #[trigger] in_any(faces@, c) && !after(last, c) ==> exists|i: int|
                0 <= i < out@.len() && out@[i].0 == c,
            forall|i: int|
                0 <= i < out@.len() ==> (#[trigger] out@[i]).1@.map_values(|s: String| s@) == names_having(
                    faces@,
                    out@[i].0,
                ),
            last is None <==> out@.len() == 0,
            last matches Some(l) ==> out@.len() > 0 && out@.last().0 == l,
        ensures
            forall|i: int, j: int| 0 <= i < j < out@.len() ==> (#[trigger] out@[i].0 as u32) < (#[trigger] out@[j].0 as u32),
            forall|i: int| 0 <= i < out@.len() ==> in_any(faces@, #[trigger] out@[i].0),
            forall|c: char| #[trigger] in_any(faces@, c) && !after(last, c) ==> exists|i: int|
                0 <= i < out@.len() && out@[i].0 == c,
            forall|i: int|
                0 <= i < out@.len() ==> (#[trigger] out@[i]).1@.map_values(|s: String| s@) == names_having(
                    faces@,
                    out@[i].0,
                ),
            forall|c: char| in_any(faces@, c) ==> !after(last, c),
        decreases 0x110000 - (match last {
            None => 0int,
            Some(l) => (l as u32) as int + 1,
        }),
    {
        let next = next_char(faces, last);
        match next {
            None => {
                break;
            },
            Some(c) => {
                let names = names_for(faces, c);
                let ghost pre = out@;
                out.push((c, names));
                proof {
                    assert forall|i: int, j: int| 0 <= i < j < out@.len() implies (#[trigger] out@[i].0 as u32) < (#[trigger] out@[j].0 as u32) by {
                        if j == pre.len() && i < j {
                            assert(out@[i] == pre[i]);
                            if let Some(l) = last {
                                if i < pre.len() - 1 {
                                    assert((pre[i].0 as u32) < (pre[pre.len() - 1].0 as u32));
                                }
                            }
                        } else {
                            assert(out@[i] == pre[i]);
                            assert(out@[j] == pre[j]);
                        }
                    }
                    assert forall|i: int| 0 <= i < out@.len() implies in_any(faces@, #[trigger] out@[i].0) by {
                        if i < pre.len() {
                            assert(out@[i] == pre[i]);
                        }
                    }
                    assert forall|d: char| #[trigger] in_any(faces@, d) && !after(Some(c), d) implies exists|i: int|
                        0 <= i < out@.len() && out@[i].0 == d by {
                        if d == c {
                            assert(out@[pre.len() as int].0 == d);
                        } else if !after(last, d) {
                            let i = choose|i: int| 0 <= i < pre.len() && pre[i].0 == d;
                            assert(out@[i] == pre[i]);
                        } else {
                            assert((c as u32) <= (d as u32));
                            vstd::utf8::char_u32_cast(c, c as u32);
                            vstd::utf8::char_u32_cast(d, d as u32);
                        }
                    }
                    assert forall|i: int| 0 <= i < out@.len() implies (#[trigger] out@[i]).1@.map_values(
                        |s: String| s@,
                    ) == names_having(faces@, out@[i].0) by {
                        if i < pre.len() {
                            assert(out@[i] == pre[i]);
                        }
                    }
                }
                proof {
                    vstd::utf8::char_is_scalar(c);
                    assert((c as u32) <= 0x10FFFF);
                    if let Some(l) = last {
                        vstd::utf8::char_is_scalar(l);
                        assert((l as u32) < (c as u32));
                    }
                }
                last = Some(c);
            },
        }
    }
    proof {
        assert forall|c: char| #[trigger] in_any(faces@, c) implies exists|i: int|
            0 <= i < out@.len() && out@[i].0 == c by {
            assert(!after(last, c));
        }
    }
    out
}

} // verus!
