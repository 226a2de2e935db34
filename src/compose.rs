use vstd::prelude::*;
use crate::text::{chars_of, lines, push_range, split_lines, string_of};

verus! {

/// The views of a list of strings.
pub open spec fn views(v: Seq<String>) -> Seq<Seq<char>> {
    v.map_values(|s: String| s@)
}

/// The project root for a working directory: the parent of a `cli` directory, else the
/// directory itself.
pub open spec fn project_root(cwd: Seq<char>) -> Seq<char> {
    if cwd == "cli"@ {
        Seq::empty()
    } else if cwd.len() >= 4 && cwd.subrange(cwd.len() - 4, cwd.len() as int) == "/cli"@ {
        if cwd.len() == 4 {
            "/"@
        } else {
            cwd.subrange(0, cwd.len() - 4)
        }
    } else {
        cwd
    }
}

pub open spec fn digit_char(d: nat) -> char {
    if d == 0 {
        '0'
    } else if d == 1 {
        '1'
    } else if d == 2 {
        '2'
    } else if d == 3 {
        '3'
    } else if d == 4 {
        '4'
    } else if d == 5 {
        '5'
    } else if d == 6 {
        '6'
    } else if d == 7 {
        '7'
    } else if d == 8 {
        '8'
    } else {
        '9'
    }
}

/// The decimal numeral of `n`, without leading zeros.
pub open spec fn decimal_text(n: nat) -> Seq<char>
    decreases n,
{
    if n < 10 {
        seq![digit_char(n)]
    } else {
        decimal_text(n / 10).push(digit_char(n % 10))
    }
}

fn digit(d: u64) -> (c: char)
    requires
        d < 10,
    ensures
        c == digit_char(d as nat),
{
    if d == 0 {
        '0'
    } else if d == 1 {
        '1'
    } else if d == 2 {
        '2'
    } else if d == 3 {
        '3'
    } else if d == 4 {
        '4'
    } else if d == 5 {
        '5'
    } else if d == 6 {
        '6'
    } else if d == 7 {
        '7'
    } else if d == 8 {
        '8'
    } else {
        '9'
    }
}

fn push_decimal(out: &mut Vec<char>, n: u64)
    ensures
        final(out)@ == old(out)@ + decimal_text(n as nat),
    decreases n,
{
    if n < 10 {
        out.push(digit(n));
    } else {
        push_decimal(out, n / 10);
        out.push(digit(n % 10));
    }
    assert(final(out)@ =~= old(out)@ + decimal_text(n as nat)) by {
    }
}

/// The decimal numeral of `n`.
pub fn decimal_string(n: u64) -> (r: String)
    ensures
        r@ == decimal_text(n as nat),
{
    let mut v: Vec<char> = Vec::new();
    push_decimal(&mut v, n);
    assert(v@ =~= decimal_text(n as nat));
    string_of(v.as_slice())
}

fn owned(s: &str) -> (r: String)
    ensures
        r@ == s@,
{
    String::from_str(s)
}

/// Runs `docker compose` for the project.
#[derive(Clone, Debug)]
pub struct DockerCompose {
    project_dir: String,
}

impl DockerCompose {
    pub closed spec fn dir(&self) -> Seq<char> {
        self.project_dir@
    }

    /// A handle on the project that the working directory belongs to.
    pub fn new(current_dir: &str) -> (r: DockerCompose)
        ensures
            r.dir() == project_root(current_dir@),
    {
        let c = chars_of(current_dir);
        let n = c.len();
        proof {
            reveal_strlit("cli");
            reveal_strlit("/cli");
            reveal_strlit("/");
        }
        if n == 3 && c[0] == 'c' && c[1] == 'l' && c[2] == 'i' {
            assert(current_dir@ =~= "cli"@);
            return DockerCompose { project_dir: String::new() };
        }
        if n >= 4 && c[n - 4] == '/' && c[n - 3] == 'c' && c[n - 2] == 'l' && c[n - 1] == 'i' {
            assert(c@.subrange(n - 4, n as int) =~= "/cli"@);
            if n == 4 {
                return DockerCompose { project_dir: owned("/") };
            }
            let mut v: Vec<char> = Vec::new();
            push_range(&mut v, &c, 0, n - 4);
            let head = string_of(v.as_slice());
            return DockerCompose { project_dir: head };
        }
        proof {
            if current_dir@ == "cli"@ {
                assert(c@[0] == 'c' && c@[1] == 'l' && c@[2] == 'i');
            }
            if n >= 4 && c@.subrange(n - 4, n as int) == "/cli"@ {
                assert(c@.subrange(n - 4, n as int)[0] == '/');
                assert(c@.subrange(n - 4, n as int)[1] == 'c');
                assert(c@.subrange(n - 4, n as int)[2] == 'l');
                assert(c@.subrange(n - 4, n as int)[3] == 'i');
            }
        }
        DockerCompose { project_dir: String::from_str(current_dir) }
    }

    /// Arguments that start the given services in the background.
    pub fn up_args(&self, services: &Vec<String>) -> (r: Vec<String>)
        ensures
            views(r@) == seq!["compose"@, "up"@, "-d"@] + views(services@),
    {
        let mut r: Vec<String> = Vec::new();
        r.push(owned("compose"));
        r.push(owned("up"));
        r.push(owned("-d"));
        append_all(&mut r, services);
        r
    }

    /// Arguments that build the images of a profile.
    pub fn build_args(&self, profile: &str) -> (r: Vec<String>)
        ensures
            views(r@) == seq!["compose"@, "--profile"@, profile@, "build"@],
    {
        let mut r: Vec<String> = Vec::new();
        r.push(owned("compose"));
        r.push(owned("--profile"));
        r.push(owned(profile));
        r.push(owned("build"));
        assert(views(r@) =~= seq!["compose"@, "--profile"@, profile@, "build"@]);
        r
    }

    /// Arguments that start the services of a profile in the background.
    pub fn up_profile_args(&self, profile: &str) -> (r: Vec<String>)
        ensures
            views(r@) == seq!["compose"@, "--profile"@, profile@, "up"@, "-d"@],
    {
        let mut r: Vec<String> = Vec::new();
        r.push(owned("compose"));
        r.push(owned("--profile"));
        r.push(owned(profile));
        r.push(owned("up"));
        r.push(owned("-d"));
        assert(views(r@) =~= seq!["compose"@, "--profile"@, profile@, "up"@, "-d"@]);
        r
    }

    /// Arguments that stop the project, removing its volumes when asked.
    pub fn down_args(&self, volumes: bool) -> (r: Vec<String>)
        ensures
            views(r@) == if volumes {
                seq!["compose"@, "down"@, "-v"@]
            } else {
                seq!["compose"@, "down"@]
            },
    {
        let mut r: Vec<String> = Vec::new();
        r.push(owned("compose"));
        r.push(owned("down"));
        if volumes {
            r.push(owned("-v"));
        }
        assert(views(r@) =~= if volumes {
            seq!["compose"@, "down"@, "-v"@]
        } else {
            seq!["compose"@, "down"@]
        });
        r
    }

    /// Arguments that list the project's containers as a table.
    pub fn ps_args(&self) -> (r: Vec<String>)
        ensures
            views(r@) == seq!["compose"@, "ps"@, "--format"@, "table"@],
    {
        let mut r: Vec<String> = Vec::new();
        r.push(owned("compose"));
        r.push(owned("ps"));
        r.push(owned("--format"));
        r.push(owned("table"));
        assert(views(r@) =~= seq!["compose"@, "ps"@, "--format"@, "table"@]);
        r
    }

    /// Arguments that list only the ids of the project's running containers.
    pub fn running_args(&self) -> (r: Vec<String>)
        ensures
            views(r@) == seq!["compose"@, "ps"@, "-q"@],
    {
        let mut r: Vec<String> = Vec::new();
        r.push(owned("compose"));
        r.push(owned("ps"));
        r.push(owned("-q"));
        assert(views(r@) =~= seq!["compose"@, "ps"@, "-q"@]);
        r
    }

    /// Arguments that print the last `tail` log lines of a service.
    pub fn logs_args(&self, service: &str, tail: u64) -> (r: Vec<String>)
        ensures
            views(r@) == seq!["compose"@, "logs"@, "--tail"@, decimal_text(tail as nat), service@],
    {
        let mut r: Vec<String> = Vec::new();
        r.push(owned("compose"));
        r.push(owned("logs"));
        r.push(owned("--tail"));
        r.push(decimal_string(tail));
        r.push(owned(service));
        assert(views(r@) =~= seq![
            "compose"@,
            "logs"@,
            "--tail"@,
            decimal_text(tail as nat),
            service@,
        ]);
        r
    }

    /// Arguments that run a command in a service without a terminal.
    pub fn exec_args(&self, service: &str, command: &Vec<String>) -> (r: Vec<String>)
        ensures
            views(r@) == seq!["compose"@, "exec"@, "-T"@, service@] + views(command@),
    {
        let mut r: Vec<String> = Vec::new();
        r.push(owned("compose"));
        r.push(owned("exec"));
        r.push(owned("-T"));
        r.push(owned(service));
        append_all(&mut r, command);
        r
    }

    /// The container lines of a `ps` table, without its header line.
    pub fn ps_lines(stdout: &str) -> (r: Vec<String>)
        ensures
            views(r@) == if lines(stdout@).len() == 0 {
                Seq::empty()
            } else {
                lines(stdout@).drop_first()
            },
    {
        let all = text_lines(stdout);
        let mut r: Vec<String> = Vec::new();
        if all.len() == 0 {
            assert(views(r@) =~= Seq::<Seq<char>>::empty());
            return r;
        }
        let mut i: usize = 1;
        assert(views(r@) =~= views(all@).subrange(1, 1));
        while i < all.len()
            invariant
                1 <= i <= all.len(),
                views(all@) == lines(stdout@),
                views(r@) == views(all@).subrange(1, i as int),
            decreases all.len() - i,
        {
            let ghost before = r@;
            r.push(all[i].clone());
            proof {
                lemma_views_push(before, all@[i as int]);
            }
            assert(views(r@) =~= views(all@).subrange(1, i + 1));
            i += 1;
        }
        assert(views(all@).subrange(1, all.len() as int) =~= views(all@).drop_first());
        r
    }

    /// The lines of a `logs` output.
    pub fn log_lines(stdout: &str) -> (r: Vec<String>)
        ensures
            views(r@) == lines(stdout@),
    {
        text_lines(stdout)
    }

    /// Whether the quiet `ps` listing shows any running container.
    pub fn running_from(stdout: &str) -> (r: bool)
        ensures
            r == (stdout@.len() > 0),
    {
        !stdout.is_empty()
    }

    /// The directory that `docker compose` runs in.
    pub fn project_dir(&self) -> (r: &str)
        ensures
            r@ == self.dir(),
    {
        self.project_dir.as_str()
    }
}

/// Appends copies of the strings of `more` to `v`.
fn append_all(v: &mut Vec<String>, more: &Vec<String>)
    ensures
        views(final(v)@) == views(old(v)@) + views(more@),
{
    let ghost start = views(v@);
    let mut i: usize = 0;
    while i < more.len()
        invariant
            i <= more.len(),
            views(v@) == start + views(more@).subrange(0, i as int),
        decreases more.len() - i,
    {
        let ghost before = v@;
        v.push(more[i].clone());
        proof {
            lemma_views_push(before, more@[i as int]);
            assert(views(more@).subrange(0, i + 1) =~= views(more@).subrange(0, i as int).push(
                more@[i as int]@,
            ));
        }
        assert(views(v@) =~= start + views(more@).subrange(0, i + 1));
        i += 1;
    }
    assert(views(more@).subrange(0, more.len() as int) =~= views(more@));
}

/// The lines of a text, as strings.
fn text_lines(t: &str) -> (r: Vec<String>)
    ensures
        views(r@) == lines(t@),
{
    let ls = split_lines(&chars_of(t));
    let mut r: Vec<String> = Vec::new();
    let mut i: usize = 0;
    while i < ls.len()
        invariant
            i <= ls.len(),
            ls.deep_view() == lines(t@),
            views(r@) == ls.deep_view().subrange(0, i as int),
        decreases ls.len() - i,
    {
        let ghost before = r@;
        let line = string_of(ls[i].as_slice());
        r.push(line);
        proof {
            lemma_views_push(before, line);
            assert(ls.deep_view()[i as int] == ls@[i as int]@);
        }
        assert(views(r@) =~= ls.deep_view().subrange(0, i + 1));
        i += 1;
    }
    assert(ls.deep_view().subrange(0, ls.len() as int) =~= ls.deep_view());
    r
}

proof fn lemma_views_push(v: Seq<String>, s: String)
    ensures
        views(v.push(s)) =~= views(v).push(s@),
{
    assert forall|k: int| 0 <= k < v.len() + 1 implies #[trigger] views(v.push(s))[k] == views(
        v,
    ).push(s@)[k] by {
        if k < v.len() {
            assert(v.push(s)[k] == v[k]);
        }
    }
}

} // verus!
