//! What an aggregate device is made of, and where its members' channels
//! landed.
//!
//! An aggregate presents the channels of its members end to end, in an order
//! that is not stable. So a source names a member and a channel on it, and
//! is placed against what the aggregate holds now.

use crate::text;
use vstd::prelude::*;
use vstd::string::*;

verus! {

/// One member of an aggregate, and where its channels landed.
#[derive(Debug)]
pub struct Member {
    pub uid: String,
    pub name: String,
    /// How many inputs it has, and which of the aggregate's its first one
    /// is, counted from one.
    pub in_ch: u32,
    pub first_in: u32,
    /// The same of its outputs.
    pub out_ch: u32,
    pub first_out: u32,
    /// It is part of the aggregate and not switched on.
    pub absent: bool,
}

/// A device, and what it is made of where it is an aggregate.
#[derive(Debug)]
pub struct Layout {
    pub name: String,
    pub uid: String,
    pub in_ch: u32,
    /// In the order their channels appear in; none for a plain device.
    pub members: Vec<Member>,
}

/// A device as the system describes it: its members are the devices with
/// these identifiers.
#[derive(Debug)]
pub struct Device {
    pub uid: String,
    pub name: String,
    pub in_ch: u32,
    pub out_ch: u32,
    pub subs: Vec<String>,
}

/// The names of members.
pub open spec fn names(members: Seq<Member>) -> Seq<Seq<char>> {
    Seq::new(members.len(), |i: int| members[i].name@)
}

/// Names in lower case.
pub open spec fn lowered(names: Seq<Seq<char>>) -> Seq<Seq<char>> {
    Seq::new(names.len(), |i: int| text::lowercase(names[i]))
}

/// The first of the names from `i` on that is the one meant.
pub open spec fn exact(names: Seq<Seq<char>>, lower: Seq<char>, i: int) -> Option<int>
    decreases names.len() - i,
{
    if i < 0 || i >= names.len() {
        None
    } else if names[i] == lower {
        Some(i)
    } else {
        exact(names, lower, i + 1)
    }
}

/// Those of the first `n` names that hold the one meant.
pub open spec fn hits(names: Seq<Seq<char>>, lower: Seq<char>, n: int) -> Seq<int>
    decreases n,
{
    if n <= 0 {
        Seq::empty()
    } else {
        let before = hits(names, lower, n - 1);
        if text::holds(names[n - 1], lower) {
            before.push(n - 1)
        } else {
            before
        }
    }
}

/// Why a member was not found.
#[derive(Clone, Copy, Debug, PartialEq, Eq, Structural)]
pub enum Lost {
    /// There is none of that name.
    Nowhere,
    /// There is more than one.
    Many,
}

/// Which of some names one means: the very same, or else the only one that
/// holds it. More than one is not guessed at.
pub open spec fn one_of(names: Seq<Seq<char>>, lower: Seq<char>) -> Result<int, Lost> {
    let found = hits(names, lower, names.len() as int);
    match exact(names, lower, 0) {
        Some(i) => Ok(i),
        None => if found.len() == 1 {
            Ok(found[0])
        } else if found.len() == 0 {
            Err(Lost::Nowhere)
        } else {
            Err(Lost::Many)
        },
    }
}

/// The member a name means, in any case.
pub open spec fn meant(names: Seq<Seq<char>>, needle: Seq<char>) -> Result<int, Lost> {
    one_of(lowered(names), text::lowercase(needle))
}

/// Which of some names one means, all of them in lower case.
pub fn choose_one(names: &Vec<String>, lower: &str) -> (r: Result<usize, Lost>)
    ensures
        match r {
            Ok(i) => i < names@.len() && one_of(text::views(names@), lower@) == Ok::<int, Lost>(
                i as int,
            ),
            Err(why) => one_of(text::views(names@), lower@) == Err::<int, Lost>(why),
        },
{
    let ghost all = text::views(names@);
    let n: usize = names.len();
    let mut i: usize = 0;
    while i < n
        invariant
            n == names@.len(),
            all == text::views(names@),
            i <= n,
            exact(all, lower@, 0) == exact(all, lower@, i as int),
        decreases n - i,
    {
        assert(all[i as int] == names@[i as int]@);
        if text::same(names[i].as_str(), lower) {
            return Ok(i);
        }
        i = i + 1;
    }
    let mut count: usize = 0;
    let mut hit: usize = 0;
    let mut j: usize = 0;
    while j < n
        invariant
            n == names@.len(),
            all == text::views(names@),
            j <= n,
            count <= j,
            count == hits(all, lower@, j as int).len(),
            count > 0 ==> hit < n && hits(all, lower@, j as int)[count - 1] == hit,
        decreases n - j,
    {
        assert(all[j as int] == names@[j as int]@);
        if text::contains(names[j].as_str(), lower) {
            count = count + 1;
            hit = j;
        }
        j = j + 1;
    }
    if count == 1 {
        Ok(hit)
    } else if count == 0 {
        Err(Lost::Nowhere)
    } else {
        Err(Lost::Many)
    }
}

/// Which of some names comes first: the very same, or else one that holds
/// it.
pub open spec fn first_of(names: Seq<Seq<char>>, lower: Seq<char>) -> Option<int> {
    match exact(names, lower, 0) {
        Some(i) => Some(i),
        None => holding(names, lower, 0),
    }
}

/// Which of some names comes first, all of them in lower case.
pub fn choose_first(names: &Vec<String>, lower: &str) -> (r: Option<usize>)
    ensures
        match r {
            Some(i) => i < names@.len() && first_of(text::views(names@), lower@) == Some(i as int),
            None => first_of(text::views(names@), lower@) is None,
        },
{
    let ghost all = text::views(names@);
    let n: usize = names.len();
    let mut i: usize = 0;
    while i < n
        invariant
            n == names@.len(),
            all == text::views(names@),
            i <= n,
            exact(all, lower@, 0) == exact(all, lower@, i as int),
        decreases n - i,
    {
        assert(all[i as int] == names@[i as int]@);
        if text::same(names[i].as_str(), lower) {
            return Some(i);
        }
        i = i + 1;
    }
    let mut j: usize = 0;
    while j < n
        invariant
            n == names@.len(),
            all == text::views(names@),
            exact(all, lower@, 0) is None,
            j <= n,
            holding(all, lower@, 0) == holding(all, lower@, j as int),
        decreases n - j,
    {
        assert(all[j as int] == names@[j as int]@);
        if text::contains(names[j].as_str(), lower) {
            return Some(j);
        }
        j = j + 1;
    }
    None
}

/// The names at some places.
pub open spec fn picked(names: Seq<Seq<char>>, at: Seq<int>) -> Seq<Seq<char>> {
    Seq::new(at.len(), |i: int| names[at[i]])
}

/// How a name that was not found is refused: `quoted` is the name as it is
/// quoted, and `lower` it and `low` the names of the members in lower case.
pub open spec fn refused(
    layout: Layout,
    quoted: Seq<char>,
    low: Seq<Seq<char>>,
    lower: Seq<char>,
    why: Lost,
) -> Seq<char> {
    let all = names(layout.members@);
    match why {
        Lost::Nowhere => quoted + " is not in "@ + layout.name@ + ". It holds: "@ + text::joined(
            all,
            ", "@,
        ),
        Lost::Many => quoted + " matches more than one member of "@ + layout.name@ + ": "@
            + text::joined(picked(all, hits(low, lower, low.len() as int)), ", "@),
    }
}

/// How a name that was not found is refused.
pub open spec fn refusal(layout: Layout, needle: Seq<char>, why: Lost) -> Seq<char> {
    refused(
        layout,
        text::quoted(needle),
        lowered(names(layout.members@)),
        text::lowercase(needle),
        why,
    )
}

/// A number in a field of three, to the right or to the left.
pub open spec fn padded(n: u32, right: bool) -> Seq<char> {
    let t = text::decimal(n as nat);
    let pad = Seq::new((3 - t.len()) as nat, |i: int| ' ');
    if t.len() >= 3 {
        t
    } else if right {
        pad + t
    } else {
        t + pad
    }
}

/// One line about a member: its channels and its name.
pub open spec fn member_line(m: Member) -> Seq<char> {
    if m.in_ch == 0 {
        "  (no inputs)     "@ + m.name@ + "\n"@
    } else if m.in_ch == 1 {
        "  "@ + padded(m.first_in, true) + "            "@ + m.name@ + "\n"@
    } else {
        "  "@ + padded(m.first_in, true) + "-"@ + padded(
            (m.first_in + m.in_ch - 1) as u32,
            false,
        ) + "        "@ + m.name@ + "\n"@
    }
}

/// A text with a line about each of the first `n` members.
pub open spec fn listed(head: Seq<char>, members: Seq<Member>, n: int) -> Seq<char>
    decreases n,
{
    if n <= 0 {
        head
    } else {
        listed(head, members, n - 1) + member_line(members[n - 1])
    }
}

/// How a device reads on a page.
pub open spec fn described(l: Layout) -> Seq<char> {
    if l.members@.len() == 0 {
        l.name@ + " — "@ + text::decimal(l.in_ch as nat) + " in, not an aggregate"@
    } else {
        listed(
            l.name@ + " — "@ + text::decimal(l.in_ch as nat) + " in, made of:\n"@,
            l.members@,
            l.members@.len() as int,
        )
    }
}

/// How many inputs the first `n` members have together.
pub open spec fn inputs_of(members: Seq<Member>, n: int) -> int
    decreases n,
{
    if n <= 0 {
        0
    } else {
        inputs_of(members, n - 1) + members[n - 1].in_ch
    }
}

fn pad(n: u32, right: bool) -> (r: String)
    ensures
        r@ == padded(n, right),
{
    let t = text::number_text(n as usize);
    let len: usize = t.as_str().unicode_len();
    if len >= 3 {
        return t;
    }
    let mut pad = String::new();
    let mut i: usize = len;
    while i < 3
        invariant
            len <= i <= 3,
            pad@ == Seq::new((i - len) as nat, |k: int| ' '),
        decreases 3 - i,
    {
        pad.push(' ');
        assert(pad@ =~= Seq::new((i + 1 - len) as nat, |k: int| ' '));
        i = i + 1;
    }
    if right {
        pad.append(t.as_str());
        pad
    } else {
        let mut t = t;
        t.append(pad.as_str());
        t
    }
}

fn line_of(m: &Member) -> (r: String)
    requires
        m.in_ch > 1 ==> m.first_in + m.in_ch <= u32::MAX,
    ensures
        r@ == member_line(*m),
{
    if m.in_ch == 0 {
        let mut s = "  (no inputs)     ".to_string();
        s.append(m.name.as_str());
        s.append("\n");
        return s;
    }
    let mut s = "  ".to_string();
    s.append(pad(m.first_in, true).as_str());
    if m.in_ch == 1 {
        s.append("            ");
    } else {
        s.append("-");
        s.append(pad(m.first_in + (m.in_ch - 1), false).as_str());
        s.append("        ");
    }
    s.append(m.name.as_str());
    s.append("\n");
    s
}

impl Layout {
    pub fn is_aggregate(&self) -> (r: bool)
        ensures
            r == (self.members@.len() > 0),
    {
        self.members.len() > 0
    }

    /// Whether the members' inputs add up to the device's.
    pub fn consistent(&self) -> (r: bool)
        ensures
            r == (inputs_of(self.members@, self.members@.len() as int) == self.in_ch),
    {
        let n: usize = self.members.len();
        let mut sum: u64 = 0;
        let mut i: usize = 0;
        while i < n
            invariant
                n == self.members@.len(),
                i <= n,
                sum <= self.in_ch || self.in_ch < sum <= 2 * u32::MAX,
                sum == inputs_of(self.members@, i as int),
            decreases n - i,
        {
            if sum > self.in_ch as u64 {
                proof {
                    inputs_grow(self.members@, i as int, n as int);
                }
                return false;
            }
            sum = sum + self.members[i].in_ch as u64;
            i = i + 1;
        }
        sum == self.in_ch as u64
    }

    /// The names of the members in lower case.
    fn low_names(&self) -> (r: Vec<String>)
        ensures
            text::views(r@) == lowered(names(self.members@)),
    {
        let ghost all = lowered(names(self.members@));
        let n: usize = self.members.len();
        let mut r: Vec<String> = Vec::new();
        let mut i: usize = 0;
        while i < n
            invariant
                n == self.members@.len(),
                all == lowered(names(self.members@)),
                i <= n,
                r@.len() == i,
                forall|k: int| 0 <= k < i ==> (#[trigger] r@[k])@ == all[k],
            decreases n - i,
        {
            r.push(text::to_lower(self.members[i].name.as_str()));
            i = i + 1;
        }
        assert(text::views(r@) =~= all);
        r
    }

    /// Where the member a name means is.
    pub fn find(&self, needle: &str) -> (r: Result<usize, Lost>)
        ensures
            match r {
                Ok(i) => i < self.members@.len() && meant(names(self.members@), needle@) == Ok::<
                    int,
                    Lost,
                >(i as int),
                Err(why) => meant(names(self.members@), needle@) == Err::<int, Lost>(why),
            },
    {
        let low = self.low_names();
        assert(text::views(low@).len() == self.members@.len());
        choose_one(&low, text::to_lower(needle).as_str())
    }

    /// The member a name means.
    pub fn member(&self, needle: &str) -> (r: Result<&Member, String>)
        ensures
            match (r, meant(names(self.members@), needle@)) {
                (Ok(m), Ok(i)) => 0 <= i < self.members@.len() && *m == self.members@[i],
                (Err(e), Err(why)) => e@ == refusal(*self, needle@, why),
                _ => false,
            },
    {
        match self.find(needle) {
            Ok(i) => Ok(&self.members[i]),
            Err(why) => Err(self.lost(needle, why)),
        }
    }

    /// What is said of a name that means no member.
    pub fn lost(&self, needle: &str, why: Lost) -> (r: String)
        ensures
            r@ == refusal(*self, needle@, why),
    {
        let low = self.low_names();
        assert(text::views(low@).len() == self.members@.len());
        self.refuse(text::quote(needle), &low, text::to_lower(needle).as_str(), why)
    }

    /// Refuse a name, as it is quoted.
    pub fn refuse(&self, quoted: String, low: &Vec<String>, lower: &str, why: Lost) -> (r: String)
        requires
            low@.len() == self.members@.len(),
        ensures
            r@ == refused(*self, quoted@, text::views(low@), lower@, why),
    {
        let mut s = quoted;
        match why {
            Lost::Nowhere => {
                s.append(" is not in ");
                s.append(self.name.as_str());
                s.append(". It holds: ");
                let list = self.all_names();
                s.append(text::join(&list, ", ").as_str());
            },
            Lost::Many => {
                s.append(" matches more than one member of ");
                s.append(self.name.as_str());
                s.append(": ");
                let list = self.names_holding(low, lower);
                s.append(text::join(&list, ", ").as_str());
            },
        }
        s
    }

    /// The names of the members.
    fn all_names(&self) -> (r: Vec<String>)
        ensures
            text::views(r@) == names(self.members@),
    {
        let n: usize = self.members.len();
        let mut r: Vec<String> = Vec::new();
        let mut i: usize = 0;
        while i < n
            invariant
                n == self.members@.len(),
                i <= n,
                r@.len() == i,
                forall|k: int| 0 <= k < i ==> (#[trigger] r@[k])@ == names(self.members@)[k],
            decreases n - i,
        {
            r.push(self.members[i].name.as_str().to_string());
            i = i + 1;
        }
        assert(text::views(r@) =~= names(self.members@));
        r
    }

    /// The names of the members that hold a text.
    fn names_holding(&self, low: &Vec<String>, lower: &str) -> (r: Vec<String>)
        requires
            low@.len() == self.members@.len(),
        ensures
            text::views(r@) == picked(
                names(self.members@),
                hits(text::views(low@), lower@, low@.len() as int),
            ),
    {
        let ghost all = names(self.members@);
        let ghost lows = text::views(low@);
        let n: usize = self.members.len();
        let mut r: Vec<String> = Vec::new();
        let mut i: usize = 0;
        while i < n
            invariant
                n == self.members@.len(),
                n == low@.len(),
                all == names(self.members@),
                lows == text::views(low@),
                i <= n,
                r@.len() == hits(lows, lower@, i as int).len(),
                forall|k: int|
                    0 <= k < r@.len() ==> (#[trigger] r@[k])@ == all[hits(
                        lows,
                        lower@,
                        i as int,
                    )[k]],
            decreases n - i,
        {
            assert(lows[i as int] == low@[i as int]@);
            if text::contains(low[i].as_str(), lower) {
                r.push(self.members[i].name.as_str().to_string());
            }
            i = i + 1;
        }
        assert(text::views(r@) =~= picked(all, hits(lows, lower@, n as int)));
        r
    }

    /// How it reads on a page: the channel ranges, in order.
    pub fn describe(&self) -> (r: String)
        requires
            forall|i: int|
                0 <= i < self.members@.len() && (#[trigger] self.members@[i]).in_ch > 1
                    ==> self.members@[i].first_in + self.members@[i].in_ch <= u32::MAX,
        ensures
            r@ == described(*self),
    {
        let mut s = self.name.as_str().to_string();
        s.append(" — ");
        s.append(text::number_text(self.in_ch as usize).as_str());
        if !self.is_aggregate() {
            s.append(" in, not an aggregate");
            return s;
        }
        s.append(" in, made of:\n");
        let ghost head = s@;
        let n: usize = self.members.len();
        let mut i: usize = 0;
        while i < n
            invariant
                n == self.members@.len(),
                i <= n,
                forall|k: int|
                    0 <= k < self.members@.len() && (#[trigger] self.members@[k]).in_ch > 1
                        ==> self.members@[k].first_in + self.members@[k].in_ch <= u32::MAX,
                s@ == listed(head, self.members@, i as int),
            decreases n - i,
        {
            s.append(line_of(&self.members[i]).as_str());
            i = i + 1;
        }
        s
    }
}

/// The first device from `i` on with an identifier.
pub open spec fn known(devices: Seq<Device>, uid: Seq<char>, i: int) -> Option<int>
    decreases devices.len() - i,
{
    if i < 0 || i >= devices.len() {
        None
    } else if devices[i].uid@ == uid {
        Some(i)
    } else {
        known(devices, uid, i + 1)
    }
}

/// How many inputs, or outputs, the device with an identifier has: none
/// where there is none.
pub open spec fn width(devices: Seq<Device>, uid: Seq<char>, out: bool) -> int {
    match known(devices, uid, 0) {
        Some(i) => if out {
            devices[i].out_ch as int
        } else {
            devices[i].in_ch as int
        },
        None => 0,
    }
}

/// Which channel of an aggregate the first of its `n`th member is, counted
/// from one.
pub open spec fn first_at(devices: Seq<Device>, subs: Seq<String>, n: int, out: bool) -> int
    decreases n,
{
    if n <= 0 {
        1
    } else {
        first_at(devices, subs, n - 1, out) + width(devices, subs[n - 1]@, out)
    }
}

/// The `k`th member of an aggregate. One the system does not describe is not
/// switched on, and keeps its place with no channels.
pub open spec fn is_member(devices: Seq<Device>, subs: Seq<String>, k: int, m: Member) -> bool {
    let at = known(devices, subs[k]@, 0);
    &&& m.uid@ == subs[k]@
    &&& m.name@ == (match at {
        Some(i) => devices[i].name@,
        None => subs[k]@ + " (absent)"@,
    })
    &&& m.absent == (at is None)
    &&& m.in_ch == width(devices, subs[k]@, false)
    &&& m.first_in == first_at(devices, subs, k, false)
    &&& m.out_ch == width(devices, subs[k]@, true)
    &&& m.first_out == first_at(devices, subs, k, true)
}

/// A device with its members worked out.
pub open spec fn composed(devices: Seq<Device>, d: Device, l: Layout) -> bool {
    &&& l.name@ == d.name@
    &&& l.uid@ == d.uid@
    &&& l.in_ch == d.in_ch
    &&& l.members@.len() == d.subs@.len()
    &&& forall|k: int|
        0 <= k < d.subs@.len() ==> is_member(devices, d.subs@, k, #[trigger] l.members@[k])
}

/// Every device's channels can be counted.
pub open spec fn countable(devices: Seq<Device>) -> bool {
    forall|i: int, k: int, out: bool|
        0 <= i < devices.len() && 0 <= k <= devices[i].subs@.len() ==> #[trigger] first_at(
            devices,
            devices[i].subs@,
            k,
            out,
        ) <= u32::MAX
}

fn lookup(devices: &Vec<Device>, uid: &str) -> (r: Option<usize>)
    ensures
        match r {
            Some(i) => i < devices@.len() && known(devices@, uid@, 0) == Some(i as int),
            None => known(devices@, uid@, 0) is None,
        },
{
    let n: usize = devices.len();
    let mut i: usize = 0;
    while i < n
        invariant
            n == devices@.len(),
            i <= n,
            known(devices@, uid@, 0) == known(devices@, uid@, i as int),
        decreases n - i,
    {
        if text::same(devices[i].uid.as_str(), uid) {
            return Some(i);
        }
        i = i + 1;
    }
    None
}

fn members_of(devices: &Vec<Device>, d: usize) -> (r: Vec<Member>)
    requires
        d < devices@.len(),
        countable(devices@),
    ensures
        r@.len() == devices@[d as int].subs@.len(),
        forall|k: int|
            0 <= k < r@.len() ==> is_member(
                devices@,
                devices@[d as int].subs@,
                k,
                #[trigger] r@[k],
            ),
{
    let ghost subs = devices@[d as int].subs@;
    let n: usize = devices[d].subs.len();
    let mut r: Vec<Member> = Vec::new();
    let mut first_in: u32 = 1;
    let mut first_out: u32 = 1;
    let mut k: usize = 0;
    while k < n
        invariant
            d < devices@.len(),
            subs == devices@[d as int].subs@,
            n == subs.len(),
            countable(devices@),
            k <= n,
            r@.len() == k,
            first_in == first_at(devices@, subs, k as int, false),
            first_out == first_at(devices@, subs, k as int, true),
            forall|j: int| 0 <= j < k ==> is_member(devices@, subs, j, #[trigger] r@[j]),
        decreases n - k,
    {
        let sub = devices[d].subs[k].as_str();
        assert(first_at(devices@, subs, k + 1, false) <= u32::MAX);
        assert(first_at(devices@, subs, k + 1, true) <= u32::MAX);
        match lookup(devices, sub) {
            Some(i) => {
                let m = Member {
                    uid: sub.to_string(),
                    name: devices[i].name.as_str().to_string(),
                    in_ch: devices[i].in_ch,
                    first_in,
                    out_ch: devices[i].out_ch,
                    first_out,
                    absent: false,
                };
                first_in = first_in + devices[i].in_ch;
                first_out = first_out + devices[i].out_ch;
                r.push(m);
            },
            None => {
                let mut name = sub.to_string();
                name.append(" (absent)");
                r.push(
                    Member {
                        uid: sub.to_string(),
                        name,
                        in_ch: 0,
                        first_in,
                        out_ch: 0,
                        first_out,
                        absent: true,
                    },
                );
            },
        }
        k = k + 1;
    }
    r
}

/// Every device, with its members worked out.
pub fn compose(devices: &Vec<Device>) -> (r: Vec<Layout>)
    requires
        countable(devices@),
    ensures
        r@.len() == devices@.len(),
        forall|i: int|
            0 <= i < r@.len() ==> composed(devices@, devices@[i], #[trigger] r@[i]),
{
    let n: usize = devices.len();
    let mut r: Vec<Layout> = Vec::new();
    let mut i: usize = 0;
    while i < n
        invariant
            n == devices@.len(),
            countable(devices@),
            i <= n,
            r@.len() == i,
            forall|j: int| 0 <= j < i ==> composed(devices@, devices@[j], #[trigger] r@[j]),
        decreases n - i,
    {
        let members = members_of(devices, i);
        r.push(
            Layout {
                name: devices[i].name.as_str().to_string(),
                uid: devices[i].uid.as_str().to_string(),
                in_ch: devices[i].in_ch,
                members,
            },
        );
        i = i + 1;
    }
    r
}

/// The names of devices.
pub open spec fn titles(all: Seq<Layout>) -> Seq<Seq<char>> {
    Seq::new(all.len(), |i: int| all[i].name@)
}

/// The first of the names from `i` on that holds the one meant.
pub open spec fn holding(names: Seq<Seq<char>>, lower: Seq<char>, i: int) -> Option<int>
    decreases names.len() - i,
{
    if i < 0 || i >= names.len() {
        None
    } else if text::holds(names[i], lower) {
        Some(i)
    } else {
        holding(names, lower, i + 1)
    }
}

/// The device a name means: the first with exactly that name, or else the
/// first whose name holds it.
pub fn layout_of(all: &Vec<Layout>, needle: &str) -> (r: Option<usize>)
    ensures
        match r {
            Some(i) => i < all@.len() && first_of(lowered(titles(all@)), text::lowercase(needle@))
                == Some(i as int),
            None => first_of(lowered(titles(all@)), text::lowercase(needle@)) is None,
        },
{
    let ghost names = lowered(titles(all@));
    let n: usize = all.len();
    let mut low: Vec<String> = Vec::new();
    let mut i: usize = 0;
    while i < n
        invariant
            n == all@.len(),
            names == lowered(titles(all@)),
            i <= n,
            low@.len() == i,
            forall|k: int| 0 <= k < i ==> (#[trigger] low@[k])@ == names[k],
        decreases n - i,
    {
        low.push(text::to_lower(all[i].name.as_str()));
        i = i + 1;
    }
    assert(text::views(low@) =~= names);
    choose_first(&low, text::to_lower(needle).as_str())
}

proof fn inputs_grow(members: Seq<Member>, i: int, n: int)
    requires
        0 <= i <= n <= members.len(),
    ensures
        inputs_of(members, i) <= inputs_of(members, n),
    decreases n - i,
{
    if i < n {
        inputs_grow(members, i, n - 1);
    }
}

/// Every place among the hits holds the name meant, and every place that
/// holds it is among them.
proof fn hits_hold(names: Seq<Seq<char>>, lower: Seq<char>, n: int)
    requires
        0 <= n <= names.len(),
    ensures
        forall|k: int|
            0 <= k < hits(names, lower, n).len() ==> 0 <= #[trigger] hits(names, lower, n)[k] < n
                && text::holds(names[hits(names, lower, n)[k]], lower),
        forall|i: int|
            0 <= i < n && text::holds(#[trigger] names[i], lower) ==> hits(
                names,
                lower,
                n,
            ).contains(i),
    decreases n,
{
    if n > 0 {
        hits_hold(names, lower, n - 1);
        let before = hits(names, lower, n - 1);
        let after = hits(names, lower, n);
        assert forall|i: int|
            0 <= i < n && text::holds(#[trigger] names[i], lower) implies after.contains(i) by {
            if i == n - 1 {
                assert(after[after.len() - 1] == i);
            } else {
                assert(before.contains(i));
                let k = choose|k: int| 0 <= k < before.len() && before[k] == i;
                assert(after[k] == i);
            }
        }
    }
}

proof fn exact_is_exact(names: Seq<Seq<char>>, lower: Seq<char>, i: int)
    requires
        0 <= i <= names.len(),
    ensures
        exact(names, lower, i) matches Some(k) ==> i <= k < names.len() && names[k] == lower,
    decreases names.len() - i,
{
    if i < names.len() {
        exact_is_exact(names, lower, i + 1);
    }
}

/// A member that is found has the very name that was meant, or is the only
/// one whose name holds it: no order of the members makes it another.
pub proof fn a_member_found_is_the_one_meant(names: Seq<Seq<char>>, needle: Seq<char>, other: int)
    requires
        meant(names, needle) is Ok,
        0 <= other < names.len(),
    ensures
        ({
            let i = meant(names, needle)->Ok_0;
            let lower = text::lowercase(needle);
            &&& 0 <= i < names.len()
            &&& text::lowercase(names[i]) == lower || (text::holds(
                text::lowercase(names[i]),
                lower,
            ) && (text::holds(text::lowercase(names[other]), lower) ==> other == i))
        }),
{
    let lower = text::lowercase(needle);
    let low = lowered(names);
    exact_is_exact(low, lower, 0);
    hits_hold(low, lower, low.len() as int);
    let found = hits(low, lower, low.len() as int);
    if exact(low, lower, 0) is None && text::holds(low[other], lower) {
        assert(found.contains(other));
        let k = choose|k: int| 0 <= k < found.len() && found[k] == other;
        assert(k == 0);
    }
}

proof fn known_is_known(devices: Seq<Device>, uid: Seq<char>, i: int)
    requires
        0 <= i <= devices.len(),
    ensures
        match known(devices, uid, i) {
            Some(k) => i <= k < devices.len() && devices[k].uid@ == uid,
            None => forall|k: int| i <= k < devices.len() ==> (#[trigger] devices[k]).uid@ != uid,
        },
    decreases devices.len() - i,
{
    if i < devices.len() {
        known_is_known(devices, uid, i + 1);
    }
}

/// The members of an aggregate stand end to end: the first has its first
/// channel, and each begins where the one before it ends, its inputs and its
/// outputs alike. One that no device answers for is absent and takes up
/// nothing.
pub proof fn members_stand_end_to_end(devices: Seq<Device>, d: Device, l: Layout, k: int)
    requires
        composed(devices, d, l),
        0 <= k < d.subs@.len(),
    ensures
        k == 0 ==> l.members@[k].first_in == 1 && l.members@[k].first_out == 1,
        k > 0 ==> l.members@[k].first_in == l.members@[k - 1].first_in + l.members@[k - 1].in_ch,
        k > 0 ==> l.members@[k].first_out == l.members@[k - 1].first_out + l.members@[k
            - 1].out_ch,
        l.members@[k].absent <==> forall|i: int|
            0 <= i < devices.len() ==> (#[trigger] devices[i]).uid@ != d.subs@[k]@,
        l.members@[k].absent ==> l.members@[k].in_ch == 0 && l.members@[k].out_ch == 0,
        !l.members@[k].absent ==> exists|i: int|
            0 <= i < devices.len() && (#[trigger] devices[i]).uid@ == d.subs@[k]@
                && l.members@[k].name@ == devices[i].name@ && l.members@[k].in_ch
                == devices[i].in_ch && l.members@[k].out_ch == devices[i].out_ch,
{
    known_is_known(devices, d.subs@[k]@, 0);
    assert(is_member(devices, d.subs@, k, l.members@[k]));
    if k > 0 {
        assert(is_member(devices, d.subs@, k - 1, l.members@[k - 1]));
    }
}

/// All the inputs of an aggregate are its members': where one ends, as many
/// inputs have gone before as the members up to there have.
pub proof fn inputs_are_counted_member_by_member(
    devices: Seq<Device>,
    d: Device,
    l: Layout,
    n: int,
)
    requires
        composed(devices, d, l),
        0 <= n <= d.subs@.len(),
    ensures
        inputs_of(l.members@, n) + 1 == first_at(devices, d.subs@, n, false),
        n < d.subs@.len() ==> inputs_of(l.members@, n) + 1 == l.members@[n].first_in,
    decreases n,
{
    if n > 0 {
        inputs_are_counted_member_by_member(devices, d, l, n - 1);
        assert(is_member(devices, d.subs@, n - 1, l.members@[n - 1]));
    }
    if n < d.subs@.len() {
        assert(is_member(devices, d.subs@, n, l.members@[n]));
    }
}

proof fn holding_is_held(names: Seq<Seq<char>>, lower: Seq<char>, i: int)
    requires
        0 <= i <= names.len(),
    ensures
        match holding(names, lower, i) {
            Some(k) => i <= k < names.len() && text::holds(names[k], lower),
            None => forall|k: int|
                i <= k < names.len() ==> !text::holds(#[trigger] names[k], lower),
        },
    decreases names.len() - i,
{
    if i < names.len() {
        holding_is_held(names, lower, i + 1);
    }
}

/// A device is found wherever one has the name that is meant, or holds it in
/// its own; and what is found is one of those.
pub proof fn a_device_is_found_by_its_name(names: Seq<Seq<char>>, lower: Seq<char>, k: int)
    requires
        0 <= k < names.len(),
    ensures
        text::holds(names[k], lower) ==> first_of(names, lower) is Some,
        first_of(names, lower) matches Some(i) ==> 0 <= i < names.len() && (names[i] == lower
            || text::holds(names[i], lower)),
        names[k] == lower ==> first_of(names, lower) is Some,
{
    exact_is_exact(names, lower, 0);
    holding_is_held(names, lower, 0);
    exact_is_found(names, lower, 0, k);
}

proof fn exact_is_found(names: Seq<Seq<char>>, lower: Seq<char>, i: int, k: int)
    requires
        0 <= i <= k < names.len(),
    ensures
        names[k] == lower ==> exact(names, lower, i) is Some,
    decreases names.len() - i,
{
    if i < k {
        exact_is_found(names, lower, i + 1, k);
    }
}

} // verus!
