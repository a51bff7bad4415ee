//! The proxy auto-configuration (PAC) file: its text, where it lives, and the
//! URL under which a browser or the system finds it.

use vstd::prelude::*;
use crate::text::{
    replace_char, trim_start_char, spec_replace_char, spec_trim_start_char,
    spec_contains, occurs_at, spec_starts_with, spec_ends_with,
};

verus! {

/// Text of the PAC script up to the first proxy address.
pub const PAC_HEAD: &'static str = r#"
function FindProxyForURL(url, host) {
    // GitHub 相关域名列表
    var githubDomains = [
        "github.com",
        "www.github.com",
        "api.github.com",
        "raw.githubusercontent.com",
        "gist.github.com",
        "github.io",
        "githubusercontent.com",
        "githubassets.com",
        "githubapp.com",
        "assets-cdn.github.com",
        "avatars.githubusercontent.com",
        "camo.githubusercontent.com",
        "collector.github.com",
        "education.github.com",
        "lab.github.com",
        "status.github.com",
        "support.github.com",
        "token.actions.githubusercontent.com",
        "vscode-auth.github.com"
    ];
    
    // AO3 (Archive of Our Own) 相关域名列表
    var ao3Domains = [
        "archiveofourown.org",
        "www.archiveofourown.org",
        "archiveofourown.com",
        "www.archiveofourown.com"
    ];
    
    // Pixiv 相关域名列表
    var pixivDomains = [
        "pixiv.net",
        "www.pixiv.net",
        "dic.pixiv.net",
        "fanbox.cc",
        "www.fanbox.cc"
    ];
    
    // 合并所有域名列表
    var allDomains = githubDomains.concat(ao3Domains).concat(pixivDomains);
    
    // 检查域名是否匹配
    for (var i = 0; i < allDomains.length; i++) {
        if (host == allDomains[i] || dnsDomainIs(host, "." + allDomains[i])) {
            "#;

/// Start of the line that returns the proxy list: SOCKS5 first.
pub const PAC_RETURN_PROXY: &'static str = "return \"SOCKS5 ";

/// Text between two proxy addresses in the proxy list of the PAC script.
pub const PAC_SOCKS: &'static str = "; SOCKS ";

/// Text before the last proxy address in the proxy list of the PAC script.
pub const PAC_PROXY: &'static str = "; PROXY ";

/// End of the line that returns the proxy list: direct as the last resort.
pub const PAC_PROXY_END: &'static str = "; DIRECT\";";

/// Text of the PAC script between the proxy line and the direct line.
pub const PAC_MIDDLE: &'static str = r#"
        }
    }
    
    // 其他域名直接连接
    "#;

/// The line that sends every other host direct.
pub const PAC_RETURN_DIRECT: &'static str = "return \"DIRECT\";";

/// End of the PAC script.
pub const PAC_END: &'static str = "\n}\n";

/// File name of the PAC script.
pub const PAC_FILE_NAME: &'static str = "turbogithub.pac";

/// The directory used when the working directory cannot be read.
pub const FALLBACK_DIR: &'static str = ".";

/// `name` inside directory `dir`: a separator is put between them unless
/// `dir` is empty or already ends with one.
pub open spec fn spec_join_path(dir: Seq<char>, name: Seq<char>) -> Seq<char> {
    if dir.len() == 0 {
        name
    } else if dir.last() == '/' || dir.last() == '\\' {
        dir + name
    } else {
        dir + "/"@ + name
    }
}

/// The path of the PAC file for a working directory, or for the current
/// directory `.` when the working directory could not be read.
pub open spec fn spec_default_pac_path(working_dir: Option<Seq<char>>) -> Seq<char> {
    match working_dir {
        Some(d) => spec_join_path(d, PAC_FILE_NAME@),
        None => spec_join_path(FALLBACK_DIR@, PAC_FILE_NAME@),
    }
}

/// Joins a directory and a file name.
pub fn join_path(dir: &str, name: &str) -> (r: String)
    ensures
        r@ == spec_join_path(dir@, name@),
{
    let n = dir.unicode_len();
    let mut s = String::from_str(dir);
    if n > 0 {
        let last = dir.get_char(n - 1);
        if last != '/' && last != '\\' {
            s.append("/");
        }
    }
    s.append(name);
    s
}

/// The line of the PAC script that returns `proxy` as SOCKS5, SOCKS and HTTP
/// proxy, then direct.
pub open spec fn spec_proxy_return_line(proxy: Seq<char>) -> Seq<char> {
    PAC_RETURN_PROXY@ + proxy + PAC_SOCKS@ + proxy + PAC_PROXY@ + proxy + PAC_PROXY_END@
}

/// The PAC script that sends the accelerated domains through `proxy`
/// (SOCKS5, then SOCKS, then HTTP proxy, then direct) and everything else direct.
pub open spec fn spec_pac_content(proxy: Seq<char>) -> Seq<char> {
    PAC_HEAD@ + spec_proxy_return_line(proxy) + PAC_MIDDLE@ + PAC_RETURN_DIRECT@ + PAC_END@
}

/// The `file:///` URL of a PAC file at `path`: back slashes become forward
/// slashes and leading slashes are dropped.
pub open spec fn spec_pac_url(path: Seq<char>) -> Seq<char> {
    "file:///"@ + spec_trim_start_char(spec_replace_char(path, '\\', '/'), '/')
}

/// Where the PAC file is written and which proxy it points to.
pub struct PacProxy {
    pac_file_path: String,
    proxy_server: String,
}

impl PacProxy {
    /// A PAC file named `turbogithub.pac` in the working directory
    /// `working_dir` (in `.` when the working directory could not be read),
    /// pointing at `proxy_server`.
    pub fn new(proxy_server: String, working_dir: Option<String>) -> (r: Self)
        ensures
            r.pac_path_view() == spec_default_pac_path(match working_dir {
                Some(d) => Some(d@),
                None => None,
            }),
            r.proxy_view() == proxy_server@,
    {
        let pac_file_path = match &working_dir {
            Some(d) => join_path(d.as_str(), PAC_FILE_NAME),
            None => join_path(FALLBACK_DIR, PAC_FILE_NAME),
        };
        PacProxy { pac_file_path, proxy_server }
    }

    /// A PAC file at `pac_file_path`, pointing at `proxy_server`.
    pub fn with_path(proxy_server: String, pac_file_path: String) -> (r: Self)
        ensures
            r.pac_path_view() == pac_file_path@,
            r.proxy_view() == proxy_server@,
    {
        PacProxy { pac_file_path, proxy_server }
    }

    /// The path of the PAC file.
    pub closed spec fn pac_path_view(&self) -> Seq<char> {
        self.pac_file_path@
    }

    /// The proxy address the PAC file points at.
    pub closed spec fn proxy_view(&self) -> Seq<char> {
        self.proxy_server@
    }

    /// The text of the PAC script for this proxy.
    pub fn generate_pac_content(&self) -> (r: String)
        ensures
            r@ == spec_pac_content(self.proxy_view()),
    {
        let proxy = self.proxy_server.as_str();
        let mut s = String::from_str(PAC_HEAD);
        s.append(PAC_RETURN_PROXY);
        s.append(proxy);
        s.append(PAC_SOCKS);
        s.append(proxy);
        s.append(PAC_PROXY);
        s.append(proxy);
        s.append(PAC_PROXY_END);
        s.append(PAC_MIDDLE);
        s.append(PAC_RETURN_DIRECT);
        s.append(PAC_END);
        s
    }

    /// The `file:///` URL of the PAC file, for browser or system settings.
    pub fn get_pac_url(&self) -> (r: String)
        ensures
            r@ == spec_pac_url(self.pac_path_view()),
    {
        let replaced = replace_char(self.pac_file_path.as_str(), '\\', '/');
        let trimmed = trim_start_char(replaced.as_str(), '/');
        let mut s = String::from_str("file:///");
        s.append(trimmed);
        s
    }

    /// The path of the PAC file.
    pub fn get_pac_path(&self) -> (r: &String)
        ensures
            r@ == self.pac_path_view(),
    {
        &self.pac_file_path
    }
}

/// Trimming leading copies of `c` keeps a suffix of `s`: everything from the
/// first character that is not `c`.
proof fn lemma_trim_start_char_suffix(s: Seq<char>, c: char) -> (k: int)
    ensures
        0 <= k <= s.len(),
        spec_trim_start_char(s, c) == s.subrange(k, s.len() as int),
        forall|j: int| 0 <= j < k ==> s[j] == c,
        k < s.len() ==> s[k] != c,
    decreases s.len(),
{
    if s.len() > 0 && s[0] == c {
        let rest = s.subrange(1, s.len() as int);
        let k1 = lemma_trim_start_char_suffix(rest, c);
        assert(rest.subrange(k1, rest.len() as int) =~= s.subrange(k1 + 1, s.len() as int));
        assert forall|j: int| 0 <= j < k1 + 1 implies s[j] == c by {
            if j > 0 {
                assert(rest[j - 1] == s[j]);
            }
        }
        if k1 + 1 < s.len() {
            assert(rest[k1] == s[k1 + 1]);
        }
        k1 + 1
    } else {
        assert(s.subrange(0, s.len() as int) =~= s);
        0
    }
}

/// Where the PAC file lives, its URL is a `file:///` URL without back
/// slashes, with no further slash right after `file:///`, naming the file
/// `turbogithub.pac`.
pub proof fn law_pac_url_shape(working_dir: Option<Seq<char>>)
    ensures
        spec_starts_with(spec_pac_url(spec_default_pac_path(working_dir)), "file:///"@),
        forall|i: int| 0 <= i < spec_pac_url(spec_default_pac_path(working_dir)).len()
            ==> #[trigger] spec_pac_url(spec_default_pac_path(working_dir))[i] != '\\',
        spec_pac_url(spec_default_pac_path(working_dir)).len() > 8 ==> spec_pac_url(
            spec_default_pac_path(working_dir),
        )[8] != '/',
        spec_ends_with(spec_pac_url(spec_default_pac_path(working_dir)), PAC_FILE_NAME@),
{
    reveal_strlit("turbogithub.pac");
    reveal_strlit("file:///");
    reveal_strlit(".");
    reveal_strlit("/");
    let name = PAC_FILE_NAME@;
    let path = spec_default_pac_path(working_dir);
    let d = match working_dir {
        Some(d) => d,
        None => FALLBACK_DIR@,
    };
    let pre: Seq<char> = if d.len() == 0 {
        Seq::empty()
    } else if d.last() == '/' || d.last() == '\\' {
        d
    } else {
        d + "/"@
    };
    assert(path =~= pre + name);
    let x = spec_replace_char(path, '\\', '/');
    assert(spec_replace_char(name, '\\', '/') =~= name);
    assert(x =~= spec_replace_char(pre, '\\', '/') + name);
    let k = lemma_trim_start_char_suffix(x, '/');
    let t = spec_trim_start_char(x, '/');
    assert(x[x.len() - name.len()] == name[0]);
    assert(k <= x.len() - name.len());
    let u = spec_pac_url(path);
    assert(u == "file:///"@ + t);
    assert(u.subrange(0, 8) =~= "file:///"@);
    assert forall|i: int| 0 <= i < u.len() implies #[trigger] u[i] != '\\' by {
        if i >= 8 {
            assert(u[i] == t[i - 8]);
            assert(t[i - 8] == x[k + i - 8]);
        }
    }
    if u.len() > 8 {
        assert(u[8] == t[0]);
        assert(t[0] == x[k]);
    }
    assert(u.subrange(u.len() - name.len(), u.len() as int) =~= name) by {
        assert forall|j: int| 0 <= j < name.len() implies u.subrange(u.len() - name.len(), u.len() as int)[j] == name[j] by {
            assert(u[u.len() - name.len() + j] == t[t.len() - name.len() + j]);
            assert(t[t.len() - name.len() + j] == x[x.len() - name.len() + j]);
        }
    }
}

/// The PAC script always routes through the proxy it was generated for: for
/// every proxy address `s` it holds the line
/// `return "SOCKS5 s; SOCKS s; PROXY s; DIRECT";` and the line
/// `return "DIRECT";`.
pub proof fn law_pac_content_names_proxy(proxy: Seq<char>)
    ensures
        spec_contains(spec_pac_content(proxy), proxy),
        spec_contains(
            spec_pac_content(proxy),
            "return \"SOCKS5 "@ + proxy + "; SOCKS "@ + proxy + "; PROXY "@ + proxy + "; DIRECT\";"@,
        ),
        spec_contains(spec_pac_content(proxy), "return \"DIRECT\";"@),
{
    let c = spec_pac_content(proxy);
    let line = spec_proxy_return_line(proxy);
    let h = PAC_HEAD@.len() as int;
    let r = PAC_RETURN_PROXY@.len() as int;
    assert(c.subrange(h + r, h + r + proxy.len()) =~= proxy);
    assert(occurs_at(c, proxy, h + r));
    assert(c.subrange(h, h + line.len()) =~= line);
    assert(occurs_at(c, line, h));
    let m = h + line.len() + PAC_MIDDLE@.len();
    assert(c.subrange(m, m + PAC_RETURN_DIRECT@.len()) =~= PAC_RETURN_DIRECT@);
    assert(occurs_at(c, PAC_RETURN_DIRECT@, m));
}

} // verus!
