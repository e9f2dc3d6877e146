[package]
name = "course_events"
version = "0.1.0"
edition = "2021"
publish = false

[dependencies]
chrono = "*"
chrono-tz = "*"
icalendar = "*"
scraper = "*"
attohttpc = "*"
dotenv = "*"
