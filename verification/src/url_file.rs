//! The url file: the channels to follow, each with its feed urls, its name,
//! its tag and the days on which it is refreshed.

use vstd::prelude::*;
use crate::date::Date;

verus! {

/// What the refresh of a channel needs to know of an entry of the url file.
pub trait UrlFileItem {
    /// The id of the channel that the entry stands for.
    spec fn item_id(&self) -> Seq<char>;

    /// The days on which the entry is refreshed.
    spec fn item_update_on(&self) -> Seq<Date>;

    /// The tag of the entry; empty where none was given.
    spec fn item_tag(&self) -> Seq<char>;

    /// The name of the entry; empty where none was given.
    spec fn item_name(&self) -> Seq<char>;

    fn id(&self) -> (r: &String)
        ensures
            r@ == self.item_id(),
    ;

    fn update_on(&self) -> (r: &Vec<Date>)
        ensures
            r@ == self.item_update_on(),
    ;

    fn tag(&self) -> (r: &String)
        ensures
            r@ == self.item_tag(),
    ;

    fn name(&self) -> (r: &String)
        ensures
            r@ == self.item_name(),
    ;
}

/// A channel of the url file: one feed url.
#[derive(Debug)]
pub struct UrlFileChannel {
    pub url: String,
    pub name: String,
    pub update_on: Vec<Date>,
    pub tag: String,
}

/// A custom channel of the url file: several feed urls under one name.
#[derive(Debug)]
pub struct UrlFileCustomChannel {
    pub urls: Vec<String>,
    pub name: String,
    pub update_on: Vec<Date>,
    pub tag: String,
}

impl UrlFileItem for UrlFileChannel {
    /// A channel is known by its feed url.
    open spec fn item_id(&self) -> Seq<char> {
        self.url@
    }

    open spec fn item_update_on(&self) -> Seq<Date> {
        self.update_on@
    }

    open spec fn item_tag(&self) -> Seq<char> {
        self.tag@
    }

    open spec fn item_name(&self) -> Seq<char> {
        self.name@
    }

    fn id(&self) -> (r: &String) {
        &self.url
    }

    fn update_on(&self) -> (r: &Vec<Date>) {
        &self.update_on
    }

    fn tag(&self) -> (r: &String) {
        &self.tag
    }

    fn name(&self) -> (r: &String) {
        &self.name
    }
}

impl UrlFileItem for UrlFileCustomChannel {
    /// A custom channel is known by its name.
    open spec fn item_id(&self) -> Seq<char> {
        self.name@
    }

    open spec fn item_update_on(&self) -> Seq<Date> {
        self.update_on@
    }

    open spec fn item_tag(&self) -> Seq<char> {
        self.tag@
    }

    open spec fn item_name(&self) -> Seq<char> {
        self.name@
    }

    fn id(&self) -> (r: &String) {
        &self.name
    }

    fn update_on(&self) -> (r: &Vec<Date>) {
        &self.update_on
    }

    fn tag(&self) -> (r: &String) {
        &self.tag
    }

    fn name(&self) -> (r: &String) {
        &self.name
    }
}

/// The channels the url file lists where it lists none.
pub fn empty_url_file_channel() -> (r: Vec<UrlFileChannel>)
    ensures
        r@.len() == 0,
{
    Vec::new()
}

/// The custom channels the url file lists where it lists none.
pub fn empty_url_file_custom_channel() -> (r: Vec<UrlFileCustomChannel>)
    ensures
        r@.len() == 0,
{
    Vec::new()
}

/// The update days of an entry that gives none: every day.
pub fn date_always() -> (r: Vec<Date>)
    ensures
        r@ == seq![Date::Always],
{
    let mut r = Vec::new();
    r.push(Date::Always);
    r
}

/// The name or tag of an entry that gives none.
pub fn empty_string() -> (r: String)
    ensures
        r@ == Seq::<char>::empty(),
{
    String::new()
}

/// The whole url file.
#[derive(Debug)]
pub struct UrlFile {
    pub channel: Vec<UrlFileChannel>,
    pub custom_channel: Vec<UrlFileCustomChannel>,
}

impl UrlFile {
    /// A url file that lists nothing.
    pub fn new() -> (r: UrlFile)
        ensures
            r.channel@.len() == 0,
            r.custom_channel@.len() == 0,
    {
        UrlFile { channel: empty_url_file_channel(), custom_channel: empty_url_file_custom_channel() }
    }

    /// The number of entries, channels and custom channels together.
    pub fn len(&self) -> (r: usize)
        requires
            self.channel@.len() + self.custom_channel@.len() <= usize::MAX,
        ensures
            r == self.channel@.len() + self.custom_channel@.len(),
    {
        self.channel.len() + self.custom_channel.len()
    }
}

} // verus!
