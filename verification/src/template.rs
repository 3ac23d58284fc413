//! The template resolver: scans a string for `{...}` markers and replaces
//! each with its value. A marker is a `{`, one or more characters none of
//! which is `}`, and a `}`; scanning is single-pass, left to right, and a
//! substituted value is not re-scanned. Marker names `input` and `output`
//! resolve to the supplied context value, `env:NAME` to the environment
//! entry `NAME`, and any other name to the empty string.

use vstd::prelude::*;

verus! {

/// Environment passed to the resolver as an explicit table of
/// `(name, value)` entries, so that resolution is a pure function of its
/// arguments. Where several entries share a name, the first wins.
pub struct EnvMap {
    pub entries: Vec<(String, String)>,
}

/// The mapping that a list of `(name, value)` entries denotes, earlier
/// entries taking precedence over later ones.
pub open spec fn env_map_of(entries: Seq<(String, String)>) -> Map<Seq<char>, Seq<char>>
    decreases entries.len(),
{
    if entries.len() == 0 {
        Map::empty()
    } else {
        env_map_of(entries.drop_first()).insert(entries[0].0@, entries[0].1@)
    }
}

impl View for EnvMap {
    type V = Map<Seq<char>, Seq<char>>;

    open spec fn view(&self) -> Map<Seq<char>, Seq<char>> {
        env_map_of(self.entries@)
    }
}

/// Value of environment entry `name`: its mapped value, or the empty
/// string where no entry has that name.
pub open spec fn env_value(env: Map<Seq<char>, Seq<char>>, name: Seq<char>) -> Seq<char> {
    if env.contains_key(name) {
        env[name]
    } else {
        Seq::empty()
    }
}

proof fn lemma_env_no_match(entries: Seq<(String, String)>, name: Seq<char>)
    requires
        forall|j: int| 0 <= j < entries.len() ==> #[trigger] entries[j].0@ != name,
    ensures
        !env_map_of(entries).contains_key(name),
    decreases entries.len(),
{
    if entries.len() > 0 {
        assert(entries[0].0@ != name);
        assert(forall|j: int|
            0 <= j < entries.drop_first().len() ==> #[trigger] entries.drop_first()[j].0@
                != name) by {
            assert(forall|j: int|
                0 <= j < entries.drop_first().len() ==> entries.drop_first()[j] == entries[j + 1]);
        }
        lemma_env_no_match(entries.drop_first(), name);
    }
}

proof fn lemma_env_first_match(entries: Seq<(String, String)>, name: Seq<char>, i: int)
    requires
        0 <= i < entries.len(),
        entries[i].0@ == name,
        forall|j: int| 0 <= j < i ==> #[trigger] entries[j].0@ != name,
    ensures
        env_map_of(entries).contains_key(name),
        env_map_of(entries)[name] == entries[i].1@,
    decreases entries.len(),
{
    if i == 0 {
    } else {
        assert(forall|j: int|
            0 <= j < entries.drop_first().len() ==> entries.drop_first()[j] == entries[j + 1]);
        lemma_env_first_match(entries.drop_first(), name, i - 1);
        assert(entries[0].0@ != name);
    }
}

impl EnvMap {
    /// An empty environment.
    pub fn new() -> (r: EnvMap)
        ensures
            r@ == Map::<Seq<char>, Seq<char>>::empty(),
    {
        EnvMap { entries: Vec::new() }
    }

    /// Looks `name` up; the empty string stands for an absent entry.
    pub fn get(&self, name: &String) -> (r: String)
        ensures
            r@ == env_value(self@, name@),
    {
        let mut i: usize = 0;
        while i < self.entries.len()
            invariant
                i <= self.entries@.len(),
                forall|j: int| 0 <= j < i ==> #[trigger] self.entries@[j].0@ != name@,
            decreases self.entries@.len() - i,
        {
            let entry = &self.entries[i];
            if entry.0 == *name {
                let r = entry.1.clone();
                proof {
                    lemma_env_first_match(self.entries@, name@, i as int);
                }
                return r;
            }
            i = i + 1;
        }
        proof {
            lemma_env_no_match(self.entries@, name@);
        }
        String::new()
    }
}

/// Relies on str::chars: yields the characters of the string in order.
#[verifier::external_body]
fn str_chars(s: &str) -> (r: Vec<char>)
    ensures
        r@ == s@,
{
    s.chars().collect()
}

/// Relies on String's FromIterator over characters: collecting yields the
/// string of exactly those characters in order.
#[verifier::external_body]
fn chars_string(v: &Vec<char>) -> (r: String)
    ensures
        r@ == v@,
{
    v.iter().collect()
}

/// Index of the first `}` in `t`, if any.
pub open spec fn find_close(t: Seq<char>) -> Option<int>
    decreases t.len(),
{
    if t.len() == 0 {
        None
    } else if t[0] == '}' {
        Some(0int)
    } else {
        match find_close(t.drop_first()) {
            None => None,
            Some(j) => Some(j + 1),
        }
    }
}

proof fn lemma_find_close_none(t: Seq<char>)
    requires
        forall|i: int| 0 <= i < t.len() ==> t[i] != '}',
    ensures
        find_close(t) is None,
    decreases t.len(),
{
    if t.len() > 0 {
        assert(forall|i: int|
            0 <= i < t.drop_first().len() ==> t.drop_first()[i] == t[i + 1]);
        lemma_find_close_none(t.drop_first());
    }
}

proof fn lemma_find_close_at(t: Seq<char>, j: int)
    requires
        0 <= j < t.len(),
        t[j] == '}',
        forall|i: int| 0 <= i < j ==> t[i] != '}',
    ensures
        find_close(t) == Some(j),
    decreases t.len(),
{
    if j > 0 {
        assert(forall|i: int|
            0 <= i < t.drop_first().len() ==> t.drop_first()[i] == t[i + 1]);
        lemma_find_close_at(t.drop_first(), j - 1);
    }
}

proof fn lemma_find_close_bound(t: Seq<char>)
    ensures
        find_close(t) matches Some(k) ==> 0 <= k < t.len() && t[k] == '}',
    decreases t.len(),
{
    if t.len() > 0 && t[0] != '}' {
        lemma_find_close_bound(t.drop_first());
    }
}

/// Value of the marker named `name`: `input` and `output` give the context
/// value, `env:NAME` the environment entry `NAME`, and any other name the
/// empty string.
pub open spec fn marker_value(
    name: Seq<char>,
    ctx: Seq<char>,
    env: Map<Seq<char>, Seq<char>>,
) -> Seq<char> {
    if name == "input"@ || name == "output"@ {
        ctx
    } else if name.len() >= 4 && name.subrange(0, 4) == "env:"@ {
        env_value(env, name.skip(4))
    } else {
        Seq::empty()
    }
}

/// The resolved form of template `t`: each `{...}` marker (a `{`, then one
/// or more characters none of which is `}`, then the next `}`) is replaced
/// by its value, left to right and without re-scanning values; all other
/// characters stand unchanged.
pub open spec fn resolve_spec(
    t: Seq<char>,
    ctx: Seq<char>,
    env: Map<Seq<char>, Seq<char>>,
) -> Seq<char>
    decreases t.len(),
    via resolve_spec_decreases
{
    if t.len() == 0 {
        Seq::empty()
    } else if t[0] != '{' {
        seq![t[0]] + resolve_spec(t.drop_first(), ctx, env)
    } else {
        match find_close(t.drop_first()) {
            // no later `}`: nothing more can form a marker
            None => t,
            Some(k) => {
                if k == 0 {
                    // `{}` has no name and is not a marker; the `{` is literal
                    seq![t[0]] + resolve_spec(t.drop_first(), ctx, env)
                } else {
                    marker_value(t.subrange(1, k + 1), ctx, env) + resolve_spec(
                        t.skip(k + 2),
                        ctx,
                        env,
                    )
                }
            },
        }
    }
}

#[via_fn]
proof fn resolve_spec_decreases(t: Seq<char>, ctx: Seq<char>, env: Map<Seq<char>, Seq<char>>) {
    if t.len() > 0 && t[0] == '{' {
        lemma_find_close_bound(t.drop_first());
    }
}

/// Position of the first `}` at or after `from`, as an absolute index.
fn find_close_from(t: &Vec<char>, from: usize) -> (r: Option<usize>)
    requires
        from <= t@.len(),
    ensures
        match r {
            Some(j) => from <= j < t@.len() && find_close(t@.skip(from as int)) == Some(
                j - from as int,
            ),
            None => find_close(t@.skip(from as int)) is None,
        },
{
    let ghost s = t@.skip(from as int);
    proof {
        assert(forall|i: int| 0 <= i < s.len() ==> s[i] == t@[i + from]);
    }
    let mut j: usize = from;
    while j < t.len()
        invariant
            from <= j <= t@.len(),
            s == t@.skip(from as int),
            forall|i: int| 0 <= i < s.len() ==> s[i] == t@[i + from],
            forall|i: int| from <= i < j ==> t@[i] != '}',
        decreases t@.len() - j,
    {
        if t[j] == '}' {
            proof {
                lemma_find_close_at(s, j - from as int);
            }
            return Some(j);
        }
        j = j + 1;
    }
    proof {
        lemma_find_close_none(s);
    }
    None
}

/// True when `name` is the five characters of `input`.
fn name_is_input(name: &Vec<char>) -> (b: bool)
    ensures
        b == (name@ == "input"@),
{
    proof {
        reveal_strlit("input");
    }
    let b = name.len() == 5 && name[0] == 'i' && name[1] == 'n' && name[2] == 'p' && name[3] == 'u'
        && name[4] == 't';
    proof {
        if b {
            assert(name@ =~= "input"@);
        }
    }
    b
}

/// True when `name` is the six characters of `output`.
fn name_is_output(name: &Vec<char>) -> (b: bool)
    ensures
        b == (name@ == "output"@),
{
    proof {
        reveal_strlit("output");
    }
    let b = name.len() == 6 && name[0] == 'o' && name[1] == 'u' && name[2] == 't' && name[3] == 'p'
        && name[4] == 'u' && name[5] == 't';
    proof {
        if b {
            assert(name@ =~= "output"@);
        }
    }
    b
}

/// True when `name` starts with the four characters of `env:`.
fn name_is_env(name: &Vec<char>) -> (b: bool)
    ensures
        b == (name@.len() >= 4 && name@.subrange(0, 4) == "env:"@),
{
    proof {
        reveal_strlit("env:");
    }
    let b = name.len() >= 4 && name[0] == 'e' && name[1] == 'n' && name[2] == 'v' && name[3] == ':';
    proof {
        if b {
            assert(name@.subrange(0, 4) =~= "env:"@);
        }
        if name@.len() >= 4 && name@.subrange(0, 4) == "env:"@ {
            assert(name@[0] == name@.subrange(0, 4)[0]);
            assert(name@[1] == name@.subrange(0, 4)[1]);
            assert(name@[2] == name@.subrange(0, 4)[2]);
            assert(name@[3] == name@.subrange(0, 4)[3]);
        }
    }
    b
}

/// The value of one marker, per `marker_value`.
fn marker_value_exec(name: &Vec<char>, ctx: &Vec<char>, env: &EnvMap) -> (out: Vec<char>)
    ensures
        out@ == marker_value(name@, ctx@, env@),
{
    if name_is_input(name) || name_is_output(name) {
        let mut out: Vec<char> = Vec::new();
        let mut i: usize = 0;
        while i < ctx.len()
            invariant
                i <= ctx@.len(),
                out@ == ctx@.subrange(0, i as int),
            decreases ctx@.len() - i,
        {
            out.push(ctx[i]);
            i = i + 1;
        }
        proof {
            assert(out@ =~= ctx@);
        }
        out
    } else if name_is_env(name) {
        let mut var: Vec<char> = Vec::new();
        let mut i: usize = 4;
        while i < name.len()
            invariant
                4 <= i <= name@.len(),
                var@ == name@.subrange(4, i as int),
            decreases name@.len() - i,
        {
            var.push(name[i]);
            i = i + 1;
        }
        proof {
            assert(var@ =~= name@.skip(4));
        }
        let var_string = chars_string(&var);
        let value = env.get(&var_string);
        str_chars(value.as_str())
    } else {
        Vec::new()
    }
}

/// The characters `t[from..to]`, as a fresh vector.
fn copy_range(t: &Vec<char>, from: usize, to: usize) -> (out: Vec<char>)
    requires
        from <= to <= t@.len(),
    ensures
        out@ == t@.subrange(from as int, to as int),
{
    let mut out: Vec<char> = Vec::new();
    let mut i: usize = from;
    while i < to
        invariant
            from <= i <= to <= t@.len(),
            out@ == t@.subrange(from as int, i as int),
        decreases to - i,
    {
        out.push(t[i]);
        proof {
            assert(out@ =~= t@.subrange(from as int, i + 1));
        }
        i = i + 1;
    }
    out
}

/// Resolves template `t` against context value `ctx` and environment `env`.
fn resolve_chars(t: &Vec<char>, ctx: &Vec<char>, env: &EnvMap) -> (out: Vec<char>)
    ensures
        out@ == resolve_spec(t@, ctx@, env@),
{
    let mut out: Vec<char> = Vec::new();
    let mut i: usize = 0;
    proof {
        assert(t@.skip(0) =~= t@);
        assert(out@ + resolve_spec(t@, ctx@, env@) =~= resolve_spec(t@, ctx@, env@));
    }
    while i < t.len()
        invariant
            i <= t@.len(),
            resolve_spec(t@, ctx@, env@) == out@ + resolve_spec(
                t@.skip(i as int),
                ctx@,
                env@,
            ),
        decreases t@.len() - i,
    {
        let ghost suffix = t@.skip(i as int);
        let ghost old_out = out@;
        proof {
            assert(suffix.drop_first() =~= t@.skip(i + 1));
        }
        let c = t[i];
        if c != '{' {
            out.push(c);
            proof {
                assert(resolve_spec(suffix, ctx@, env@) == seq![c] + resolve_spec(
                    t@.skip(i + 1),
                    ctx@,
                    env@,
                ));
                assert(out@ + resolve_spec(t@.skip(i + 1), ctx@, env@) =~= old_out
                    + resolve_spec(suffix, ctx@, env@));
            }
            i = i + 1;
        } else {
            match find_close_from(t, i + 1) {
                None => {
                    // no later `}`: the rest of the template is literal
                    let mut rest = copy_range(t, i, t.len());
                    out.append(&mut rest);
                    proof {
                        assert(resolve_spec(suffix, ctx@, env@) == suffix);
                        assert(suffix =~= t@.subrange(i as int, t@.len() as int));
                        assert(out@ + resolve_spec(
                            t@.skip(t@.len() as int),
                            ctx@,
                            env@,
                        ) =~= out@);
                    }
                    i = t.len();
                },
                Some(j) => {
                    if j == i + 1 {
                        // `{}`: no name, the `{` is literal
                        out.push(c);
                        proof {
                            assert(resolve_spec(suffix, ctx@, env@) == seq![c] + resolve_spec(
                                t@.skip(i + 1),
                                ctx@,
                                env@,
                            ));
                            assert(out@ + resolve_spec(t@.skip(i + 1), ctx@, env@) =~= old_out
                                + resolve_spec(suffix, ctx@, env@));
                        }
                        i = i + 1;
                    } else {
                        let ghost k: int = j - i - 1;
                        let name = copy_range(t, i + 1, j);
                        let mut value = marker_value_exec(&name, ctx, env);
                        out.append(&mut value);
                        proof {
                            assert(name@ =~= suffix.subrange(1, k + 1));
                            assert(suffix.skip(k + 2) =~= t@.skip(j + 1));
                            assert(resolve_spec(suffix, ctx@, env@) == marker_value(
                                name@,
                                ctx@,
                                env@,
                            ) + resolve_spec(t@.skip(j + 1), ctx@, env@));
                            assert(out@ + resolve_spec(t@.skip(j + 1), ctx@, env@) =~= old_out
                                + resolve_spec(suffix, ctx@, env@));
                        }
                        i = j + 1;
                    }
                },
            }
        }
    }
    proof {
        assert(t@.skip(t@.len() as int) =~= Seq::<char>::empty());
        assert(out@ =~= resolve_spec(t@, ctx@, env@));
    }
    out
}

/// The context value a resolution runs under: the supplied string, or the
/// empty string where none is supplied.
pub open spec fn context_view(context: Option<&String>) -> Seq<char> {
    match context {
        Some(s) => s@,
        None => Seq::empty(),
    }
}

/// The context value a response context supplies: its first element, or
/// the empty string where the context is empty.
pub open spec fn buffer_context(buf: Seq<Seq<char>>) -> Seq<char> {
    if buf.len() == 0 {
        Seq::empty()
    } else {
        buf[0]
    }
}

/// Resolves every `{...}` marker of `template` against `context` (the first
/// element of the current response context, if any) and the environment
/// table `env`. An unknown or malformed marker resolves to the empty string;
/// resolution never fails.
pub fn process_placeholders(template: &str, context: Option<&String>, env: &EnvMap) -> (r: String)
    ensures
        r@ == resolve_spec(template@, context_view(context), env@),
{
    let t = str_chars(template);
    let ctx: Vec<char> = match context {
        Some(s) => str_chars(s.as_str()),
        None => Vec::new(),
    };
    let out = resolve_chars(&t, &ctx, env);
    chars_string(&out)
}

} // verus!
