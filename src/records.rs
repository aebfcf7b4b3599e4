use vstd::prelude::*;

verus! {

/// A record of the application (framework) log.
pub struct LaravelLogEntry {
    pub date: String,
    pub log_level: String,
    pub message: String,
}

/// A record of the web-server error log.
pub struct ApacheLogEntry {
    pub date: String,
    pub log_level: String,
    pub pid: String,
    pub message: String,
}

/// A record of the web-server access log.
pub struct AccessLogEntry {
    pub ip: String,
    pub datetime: String,
    pub method: String,
    pub url: String,
    pub protocol: String,
    pub status: String,
    pub size: String,
    pub referrer: String,
    pub user_agent: String,
}

pub struct LaravelView {
    pub date: Seq<char>,
    pub log_level: Seq<char>,
    pub message: Seq<char>,
}

pub struct ApacheView {
    pub date: Seq<char>,
    pub log_level: Seq<char>,
    pub pid: Seq<char>,
    pub message: Seq<char>,
}

pub struct AccessView {
    pub ip: Seq<char>,
    pub datetime: Seq<char>,
    pub method: Seq<char>,
    pub url: Seq<char>,
    pub protocol: Seq<char>,
    pub status: Seq<char>,
    pub size: Seq<char>,
    pub referrer: Seq<char>,
    pub user_agent: Seq<char>,
}

impl View for LaravelLogEntry {
    type V = LaravelView;

    open spec fn view(&self) -> LaravelView {
        LaravelView { date: self.date@, log_level: self.log_level@, message: self.message@ }
    }
}

impl View for ApacheLogEntry {
    type V = ApacheView;

    open spec fn view(&self) -> ApacheView {
        ApacheView {
            date: self.date@,
            log_level: self.log_level@,
            pid: self.pid@,
            message: self.message@,
        }
    }
}

impl View for AccessLogEntry {
    type V = AccessView;

    open spec fn view(&self) -> AccessView {
        AccessView {
            ip: self.ip@,
            datetime: self.datetime@,
            method: self.method@,
            url: self.url@,
            protocol: self.protocol@,
            status: self.status@,
            size: self.size@,
            referrer: self.referrer@,
            user_agent: self.user_agent@,
        }
    }
}

pub open spec fn laravel_views(s: Seq<LaravelLogEntry>) -> Seq<LaravelView> {
    s.map_values(|e: LaravelLogEntry| e@)
}

pub open spec fn apache_views(s: Seq<ApacheLogEntry>) -> Seq<ApacheView> {
    s.map_values(|e: ApacheLogEntry| e@)
}

pub open spec fn access_views(s: Seq<AccessLogEntry>) -> Seq<AccessView> {
    s.map_values(|e: AccessLogEntry| e@)
}

impl LaravelLogEntry {
    /// A copy of this record.
    pub fn duplicate(&self) -> (r: Self)
        ensures
            r@ == self@,
    {
        LaravelLogEntry {
            date: self.date.clone(),
            log_level: self.log_level.clone(),
            message: self.message.clone(),
        }
    }
}

impl ApacheLogEntry {
    /// A copy of this record.
    pub fn duplicate(&self) -> (r: Self)
        ensures
            r@ == self@,
    {
        ApacheLogEntry {
            date: self.date.clone(),
            log_level: self.log_level.clone(),
            pid: self.pid.clone(),
            message: self.message.clone(),
        }
    }
}

impl AccessLogEntry {
    /// A copy of this record.
    pub fn duplicate(&self) -> (r: Self)
        ensures
            r@ == self@,
    {
        AccessLogEntry {
            ip: self.ip.clone(),
            datetime: self.datetime.clone(),
            method: self.method.clone(),
            url: self.url.clone(),
            protocol: self.protocol.clone(),
            status: self.status.clone(),
            size: self.size.clone(),
            referrer: self.referrer.clone(),
            user_agent: self.user_agent.clone(),
        }
    }
}

} // verus!
